use vstd::prelude::*;

use crate::domain::capability::{NetworkBackend, NodeCapabilities};
use crate::domain::error::{CoreError, ErrorKind};
use crate::domain::id::NetworkId;
use crate::domain::route::{IpAddress, IpPrefix};
use crate::text::{chars_of, trim_bounds, trim_chars};

verus! {

/// The text has a character other than white space.
pub open spec fn has_content(value: Seq<char>) -> bool {
    trim_chars(value).len() > 0
}

pub fn is_blank(value: &str) -> (blank: bool)
    ensures
        blank == !has_content(value@),
{
    let chars = chars_of(value);
    let (start, end) = trim_bounds(&chars);
    start == end
}

/// An opaque, non-blank handle naming a system object.
#[derive(Clone, Debug, PartialOrd, Ord, Hash)]
pub struct AdapterHandle(String);

impl PartialEq for AdapterHandle {
    fn eq(&self, other: &Self) -> (equal: bool) {
        self.0 == other.0
    }
}

impl Eq for AdapterHandle {

}

impl vstd::std_specs::cmp::PartialEqSpecImpl for AdapterHandle {
    open spec fn obeys_eq_spec() -> bool {
        true
    }

    open spec fn eq_spec(&self, other: &Self) -> bool {
        self@ == other@
    }
}

impl View for AdapterHandle {
    type V = Seq<char>;

    closed spec fn view(&self) -> Seq<char> {
        self.0@
    }
}

impl AdapterHandle {
    /// Accepts any text that is not empty once white space is trimmed, and keeps it as given.
    pub fn new(value: &str) -> (result: Result<Self, CoreError>)
        ensures
            result is Ok <==> has_content(value@),
            match result {
                Ok(handle) => handle@ == value@,
                Err(error) => error.spec_kind() == ErrorKind::InvalidInput
                    && error.spec_message() == "AdapterHandle cannot be empty"@
                    && error.spec_diagnostic() is None,
            },
    {
        if is_blank(value) {
            return Err(CoreError::new(ErrorKind::InvalidInput, "AdapterHandle cannot be empty"));
        }
        Ok(AdapterHandle(String::from_str(value)))
    }

    /// An equal, separately owned handle.
    pub fn duplicate(&self) -> (copy: Self)
        ensures
            copy@ == self@,
    {
        AdapterHandle(self.0.clone())
    }

    pub fn as_str(&self) -> (text: &str)
        ensures
            text@ == self@,
    {
        self.0.as_str()
    }
}

/// An opaque, non-blank handle naming a system object.
#[derive(Clone, Debug, PartialOrd, Ord, Hash)]
pub struct PeerHandle(String);

impl PartialEq for PeerHandle {
    fn eq(&self, other: &Self) -> (equal: bool) {
        self.0 == other.0
    }
}

impl Eq for PeerHandle {

}

impl vstd::std_specs::cmp::PartialEqSpecImpl for PeerHandle {
    open spec fn obeys_eq_spec() -> bool {
        true
    }

    open spec fn eq_spec(&self, other: &Self) -> bool {
        self@ == other@
    }
}

impl View for PeerHandle {
    type V = Seq<char>;

    closed spec fn view(&self) -> Seq<char> {
        self.0@
    }
}

impl PeerHandle {
    /// Accepts any text that is not empty once white space is trimmed, and keeps it as given.
    pub fn new(value: &str) -> (result: Result<Self, CoreError>)
        ensures
            result is Ok <==> has_content(value@),
            match result {
                Ok(handle) => handle@ == value@,
                Err(error) => error.spec_kind() == ErrorKind::InvalidInput
                    && error.spec_message() == "PeerHandle cannot be empty"@
                    && error.spec_diagnostic() is None,
            },
    {
        if is_blank(value) {
            return Err(CoreError::new(ErrorKind::InvalidInput, "PeerHandle cannot be empty"));
        }
        Ok(PeerHandle(String::from_str(value)))
    }

    /// An equal, separately owned handle.
    pub fn duplicate(&self) -> (copy: Self)
        ensures
            copy@ == self@,
    {
        PeerHandle(self.0.clone())
    }

    pub fn as_str(&self) -> (text: &str)
        ensures
            text@ == self@,
    {
        self.0.as_str()
    }
}

/// An opaque, non-blank handle naming a system object.
#[derive(Clone, Debug, PartialOrd, Ord, Hash)]
pub struct NetworkInterfaceHandle(String);

impl PartialEq for NetworkInterfaceHandle {
    fn eq(&self, other: &Self) -> (equal: bool) {
        self.0 == other.0
    }
}

impl Eq for NetworkInterfaceHandle {

}

impl vstd::std_specs::cmp::PartialEqSpecImpl for NetworkInterfaceHandle {
    open spec fn obeys_eq_spec() -> bool {
        true
    }

    open spec fn eq_spec(&self, other: &Self) -> bool {
        self@ == other@
    }
}

impl View for NetworkInterfaceHandle {
    type V = Seq<char>;

    closed spec fn view(&self) -> Seq<char> {
        self.0@
    }
}

impl NetworkInterfaceHandle {
    /// Accepts any text that is not empty once white space is trimmed, and keeps it as given.
    pub fn new(value: &str) -> (result: Result<Self, CoreError>)
        ensures
            result is Ok <==> has_content(value@),
            match result {
                Ok(handle) => handle@ == value@,
                Err(error) => error.spec_kind() == ErrorKind::InvalidInput
                    && error.spec_message() == "NetworkInterfaceHandle cannot be empty"@
                    && error.spec_diagnostic() is None,
            },
    {
        if is_blank(value) {
            return Err(CoreError::new(ErrorKind::InvalidInput, "NetworkInterfaceHandle cannot be empty"));
        }
        Ok(NetworkInterfaceHandle(String::from_str(value)))
    }

    /// An equal, separately owned handle.
    pub fn duplicate(&self) -> (copy: Self)
        ensures
            copy@ == self@,
    {
        NetworkInterfaceHandle(self.0.clone())
    }

    pub fn as_str(&self) -> (text: &str)
        ensures
            text@ == self@,
    {
        self.0.as_str()
    }
}

/// An opaque, non-blank handle naming a system object.
#[derive(Clone, Debug, PartialOrd, Ord, Hash)]
pub struct NetworkConnectionHandle(String);

impl PartialEq for NetworkConnectionHandle {
    fn eq(&self, other: &Self) -> (equal: bool) {
        self.0 == other.0
    }
}

impl Eq for NetworkConnectionHandle {

}

impl vstd::std_specs::cmp::PartialEqSpecImpl for NetworkConnectionHandle {
    open spec fn obeys_eq_spec() -> bool {
        true
    }

    open spec fn eq_spec(&self, other: &Self) -> bool {
        self@ == other@
    }
}

impl View for NetworkConnectionHandle {
    type V = Seq<char>;

    closed spec fn view(&self) -> Seq<char> {
        self.0@
    }
}

impl NetworkConnectionHandle {
    /// Accepts any text that is not empty once white space is trimmed, and keeps it as given.
    pub fn new(value: &str) -> (result: Result<Self, CoreError>)
        ensures
            result is Ok <==> has_content(value@),
            match result {
                Ok(handle) => handle@ == value@,
                Err(error) => error.spec_kind() == ErrorKind::InvalidInput
                    && error.spec_message() == "NetworkConnectionHandle cannot be empty"@
                    && error.spec_diagnostic() is None,
            },
    {
        if is_blank(value) {
            return Err(CoreError::new(ErrorKind::InvalidInput, "NetworkConnectionHandle cannot be empty"));
        }
        Ok(NetworkConnectionHandle(String::from_str(value)))
    }

    /// An equal, separately owned handle.
    pub fn duplicate(&self) -> (copy: Self)
        ensures
            copy@ == self@,
    {
        NetworkConnectionHandle(self.0.clone())
    }

    pub fn as_str(&self) -> (text: &str)
        ensures
            text@ == self@,
    {
        self.0.as_str()
    }
}

/// An opaque, non-blank handle naming a system object.
#[derive(Clone, Debug, PartialOrd, Ord, Hash)]
pub struct NetworkDeviceHandle(String);

impl PartialEq for NetworkDeviceHandle {
    fn eq(&self, other: &Self) -> (equal: bool) {
        self.0 == other.0
    }
}

impl Eq for NetworkDeviceHandle {

}

impl vstd::std_specs::cmp::PartialEqSpecImpl for NetworkDeviceHandle {
    open spec fn obeys_eq_spec() -> bool {
        true
    }

    open spec fn eq_spec(&self, other: &Self) -> bool {
        self@ == other@
    }
}

impl View for NetworkDeviceHandle {
    type V = Seq<char>;

    closed spec fn view(&self) -> Seq<char> {
        self.0@
    }
}

impl NetworkDeviceHandle {
    /// Accepts any text that is not empty once white space is trimmed, and keeps it as given.
    pub fn new(value: &str) -> (result: Result<Self, CoreError>)
        ensures
            result is Ok <==> has_content(value@),
            match result {
                Ok(handle) => handle@ == value@,
                Err(error) => error.spec_kind() == ErrorKind::InvalidInput
                    && error.spec_message() == "NetworkDeviceHandle cannot be empty"@
                    && error.spec_diagnostic() is None,
            },
    {
        if is_blank(value) {
            return Err(CoreError::new(ErrorKind::InvalidInput, "NetworkDeviceHandle cannot be empty"));
        }
        Ok(NetworkDeviceHandle(String::from_str(value)))
    }

    /// An equal, separately owned handle.
    pub fn duplicate(&self) -> (copy: Self)
        ensures
            copy@ == self@,
    {
        NetworkDeviceHandle(self.0.clone())
    }

    pub fn as_str(&self) -> (text: &str)
        ensures
            text@ == self@,
    {
        self.0.as_str()
    }
}

#[derive(Clone, Debug, PartialEq, Eq)]
pub struct BluetoothAdapter {
    pub handle: AdapterHandle,
    pub powered: bool,
}

#[derive(Clone, Debug, PartialEq, Eq)]
pub enum BluetoothAdapterEvent {
    Added(BluetoothAdapter),
    Removed(AdapterHandle),
    PoweredChanged { handle: AdapterHandle, powered: bool },
}

#[derive(Clone, Debug, PartialEq, Eq)]
pub struct DiscoveredPeer {
    pub handle: PeerHandle,
    pub display_name: Option<String>,
    pub paired: bool,
    pub trusted: bool,
}

/// Restore token for a bounded incoming Bluetooth pairing window.
#[derive(Debug, PartialEq, Eq)]
pub struct IncomingPairingWindow {
    adapter: AdapterHandle,
    restore_discoverable: bool,
    restore_pairable: bool,
}

impl IncomingPairingWindow {
    pub closed spec fn spec_adapter(&self) -> AdapterHandle {
        self.adapter
    }

    pub closed spec fn spec_restore_discoverable(&self) -> bool {
        self.restore_discoverable
    }

    pub closed spec fn spec_restore_pairable(&self) -> bool {
        self.restore_pairable
    }

    /// A window on `adapter` that remembers the discoverable and pairable settings to restore.
    pub fn new(adapter: AdapterHandle, restore_discoverable: bool, restore_pairable: bool) -> (window: Self)
        ensures
            window.spec_adapter() == adapter,
            window.spec_restore_discoverable() == restore_discoverable,
            window.spec_restore_pairable() == restore_pairable,
    {
        IncomingPairingWindow { adapter, restore_discoverable, restore_pairable }
    }

    pub fn adapter(&self) -> (adapter: &AdapterHandle)
        ensures
            *adapter == self.spec_adapter(),
    {
        &self.adapter
    }

    pub fn restore_discoverable(&self) -> (value: bool)
        ensures
            value == self.spec_restore_discoverable(),
    {
        self.restore_discoverable
    }

    pub fn restore_pairable(&self) -> (value: bool)
        ensures
            value == self.spec_restore_pairable(),
    {
        self.restore_pairable
    }
}

#[derive(Clone, Debug, PartialEq, Eq)]
pub enum BluetoothPeerEvent {
    Added(DiscoveredPeer),
    Changed(DiscoveredPeer),
    Removed(PeerHandle),
}

#[derive(Clone, Copy, Debug, PartialEq, Eq, Structural)]
pub enum PanRole {
    Panu,
    Nap,
}

#[derive(Clone, Debug, PartialEq, Eq)]
pub struct PanAttachment {
    pub role: PanRole,
    pub interface: NetworkInterfaceHandle,
    pub peer: Option<PeerHandle>,
}

#[derive(Clone, Debug, PartialEq, Eq)]
pub enum PanuEvent {
    Lost(PanAttachment),
}

#[derive(Clone, Debug, PartialEq, Eq)]
pub enum NapEvent {
    ClientAttached(PanAttachment),
    ClientDetached(PanAttachment),
}

#[derive(Clone, Debug, PartialEq, Eq)]
pub struct NetworkConnection {
    pub handle: NetworkConnectionHandle,
    pub id: String,
    pub uuid: String,
    pub connection_type: String,
    pub interface: Option<NetworkInterfaceHandle>,
    pub owner: Option<NetworkId>,
}

#[derive(Clone, Debug, PartialEq, Eq)]
pub struct NetworkDevice {
    pub handle: NetworkDeviceHandle,
    pub interface: NetworkInterfaceHandle,
    pub managed: bool,
    pub device_type: u32,
    pub state: u32,
    pub active_connection: Option<NetworkConnectionHandle>,
}

impl NetworkConnection {
    /// An equal, separately owned connection.
    pub fn duplicate(&self) -> (copy: Self)
        ensures
            copy.handle@ == self.handle@,
            copy.id@ == self.id@,
            copy.uuid@ == self.uuid@,
            copy.connection_type@ == self.connection_type@,
            match (copy.interface, self.interface) {
                (Some(a), Some(b)) => a@ == b@,
                (None, None) => true,
                _ => false,
            },
            copy.owner == self.owner,
    {
        NetworkConnection {
            handle: self.handle.duplicate(),
            id: self.id.clone(),
            uuid: self.uuid.clone(),
            connection_type: self.connection_type.clone(),
            interface: match &self.interface {
                Some(handle) => Some(handle.duplicate()),
                None => None,
            },
            owner: self.owner,
        }
    }
}

impl NetworkDevice {
    /// An equal, separately owned device.
    pub fn duplicate(&self) -> (copy: Self)
        ensures
            copy.handle@ == self.handle@,
            copy.interface@ == self.interface@,
            copy.managed == self.managed,
            copy.device_type == self.device_type,
            copy.state == self.state,
            match (copy.active_connection, self.active_connection) {
                (Some(a), Some(b)) => a@ == b@,
                (None, None) => true,
                _ => false,
            },
    {
        NetworkDevice {
            handle: self.handle.duplicate(),
            interface: self.interface.duplicate(),
            managed: self.managed,
            device_type: self.device_type,
            state: self.state,
            active_connection: match &self.active_connection {
                Some(handle) => Some(handle.duplicate()),
                None => None,
            },
        }
    }
}

#[derive(Clone, Debug, PartialEq, Eq)]
pub enum NetworkStateEvent {
    ConnectionAdded(NetworkConnection),
    ConnectionChanged(NetworkConnection),
    ConnectionRemoved(NetworkConnectionHandle),
    DeviceAdded(NetworkDevice),
    DeviceChanged(NetworkDevice),
    DeviceRemoved(NetworkDeviceHandle),
}

#[derive(Clone, Debug, PartialEq, Eq)]
pub struct InterfaceAddress {
    pub interface: NetworkInterfaceHandle,
    pub prefix: IpPrefix,
    pub owner: NetworkId,
}

#[derive(Clone, Debug, PartialEq, Eq)]
pub struct LinuxRoute {
    pub destination: IpPrefix,
    pub via: Option<IpAddress>,
    pub interface: NetworkInterfaceHandle,
    pub metric: u32,
    pub owner: NetworkId,
}

#[derive(Clone, Debug, PartialEq, Eq)]
pub struct RuntimeCapabilities {
    pub bluez_available: bool,
    pub network_backend: Option<NetworkBackend>,
    pub node: NodeCapabilities,
}

} // verus!
