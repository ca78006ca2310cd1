use vstd::prelude::*;

use crate::domain::error::{CoreError, ErrorKind};
use crate::linux::handles::{
    has_content, is_blank, NetworkInterfaceHandle, PanAttachment, PanRole, PeerHandle,
};
use crate::text::{contains_text, lists, same_text};

verus! {

pub const NETWORK_INTERFACE: &'static str = "org.bluez.Network1";
pub const DEVICE_INTERFACE: &'static str = "org.bluez.Device1";
pub const CONNECTED_PROPERTY: &'static str = "Connected";
pub const INTERFACE_PROPERTY: &'static str = "Interface";
pub const REMOTE_NAP_ROLE: &'static str = "nap";

/// The PANU attachment for a connection to `peer` over the interface BlueZ named.
pub fn panu_attachment(peer: &PeerHandle, interface: &str) -> (result: Result<PanAttachment, CoreError>)
    ensures
        result is Ok <==> has_content(interface@),
        match result {
            Ok(attachment) => attachment.role == PanRole::Panu && attachment.interface@
                == interface@ && match attachment.peer {
                Some(handle) => handle@ == peer@,
                None => false,
            },
            Err(error) => error.spec_kind() == ErrorKind::ProtocolError && error.spec_message()
                == "BlueZ returned an empty PAN interface name"@ && error.spec_diagnostic() is None,
        },
{
    if is_blank(interface) {
        return Err(
            CoreError::new(ErrorKind::ProtocolError, "BlueZ returned an empty PAN interface name"),
        );
    }
    let handle = match NetworkInterfaceHandle::new(interface) {
        Ok(handle) => handle,
        Err(error) => return Err(error),
    };
    Ok(PanAttachment { role: PanRole::Panu, interface: handle, peer: Some(peer.duplicate()) })
}

/// A PANU event subscription needs a PANU attachment with a peer.
pub fn validate_panu_attachment(attachment: &PanAttachment) -> (result: Result<(), CoreError>)
    ensures
        result is Ok <==> attachment.role == PanRole::Panu && attachment.peer is Some,
        match result {
            Ok(()) => true,
            Err(error) => error.spec_kind() == ErrorKind::InvalidInput && error.spec_message() == if attachment.role != PanRole::Panu {
                "PANU event subscription requires a PANU attachment"@
            } else {
                "PANU event subscription requires a peer"@
            },
        },
{
    if attachment.role != PanRole::Panu {
        return Err(
            CoreError::new(
                ErrorKind::InvalidInput,
                "PANU event subscription requires a PANU attachment",
            ),
        );
    }
    if attachment.peer.is_none() {
        return Err(CoreError::new(ErrorKind::InvalidInput, "PANU event subscription requires a peer"));
    }
    Ok(())
}

/// A property named in a change notification, as changed or invalidated.
pub open spec fn property_touched(changed: Seq<String>, invalidated: Seq<String>, name: Seq<char>) -> bool {
    lists(changed, name) || lists(invalidated, name)
}

/// A change of these properties may have changed whether the PANU link is up: `Connected`
/// and `Interface` of the network profile, `Connected` of the device.
pub open spec fn panu_state_touched(interface: Seq<char>, changed: Seq<String>, invalidated: Seq<String>) -> bool {
    if interface == NETWORK_INTERFACE@ {
        property_touched(changed, invalidated, CONNECTED_PROPERTY@) || property_touched(
            changed,
            invalidated,
            INTERFACE_PROPERTY@,
        )
    } else if interface == DEVICE_INTERFACE@ {
        property_touched(changed, invalidated, CONNECTED_PROPERTY@)
    } else {
        false
    }
}

/// Whether a properties change on `interface`, naming the `changed` and `invalidated`
/// properties, can affect the PANU link's state.
pub fn properties_change_can_affect_panu_state(
    interface: &str,
    changed: &Vec<String>,
    invalidated: &Vec<String>,
) -> (affects: bool)
    ensures
        affects == panu_state_touched(interface@, changed@, invalidated@),
{
    if same_text(interface, NETWORK_INTERFACE) {
        contains_text(changed, CONNECTED_PROPERTY) || contains_text(invalidated, CONNECTED_PROPERTY)
            || contains_text(changed, INTERFACE_PROPERTY) || contains_text(
            invalidated,
            INTERFACE_PROPERTY,
        )
    } else if same_text(interface, DEVICE_INTERFACE) {
        contains_text(changed, CONNECTED_PROPERTY) || contains_text(invalidated, CONNECTED_PROPERTY)
    } else {
        false
    }
}

/// The error kind and message for a refused PAN connection, by the D-Bus error name.
pub open spec fn connect_failure(name: Seq<char>) -> (ErrorKind, Seq<char>) {
    if name == "org.bluez.Error.ConnectionAttemptFailed"@ {
        (ErrorKind::PanFailure, "Bluetooth PAN connection attempt failed"@)
    } else if name == "org.bluez.Error.NotAuthorized"@ || name
        == "org.freedesktop.DBus.Error.AccessDenied"@ {
        (ErrorKind::AuthenticationFailed, "Bluetooth PAN connection was not authorized"@)
    } else if name == "org.bluez.Error.NotReady"@ {
        (ErrorKind::PanFailure, "Bluetooth peer is not ready for a PAN connection"@)
    } else if name == "org.bluez.Error.DoesNotExist"@ || name
        == "org.freedesktop.DBus.Error.UnknownObject"@ {
        (ErrorKind::InvalidState, "Bluetooth peer is no longer available"@)
    } else if name == "org.freedesktop.DBus.Error.UnknownMethod"@ || name
        == "org.freedesktop.DBus.Error.UnknownInterface"@ || name
        == "org.bluez.Error.NotSupported"@ || name == "org.bluez.Error.NotAvailable"@ {
        (
            ErrorKind::CapabilityUnavailable,
            "Bluetooth peer does not expose a usable PAN network profile"@,
        )
    } else {
        (ErrorKind::PanFailure, "Bluetooth PAN connection failed"@)
    }
}

pub fn connect_method_error(name: &str) -> (result: (ErrorKind, &'static str))
    ensures
        (result.0, result.1@) == connect_failure(name@),
{
    if same_text(name, "org.bluez.Error.ConnectionAttemptFailed") {
        (ErrorKind::PanFailure, "Bluetooth PAN connection attempt failed")
    } else if same_text(name, "org.bluez.Error.NotAuthorized") || same_text(
        name,
        "org.freedesktop.DBus.Error.AccessDenied",
    ) {
        (ErrorKind::AuthenticationFailed, "Bluetooth PAN connection was not authorized")
    } else if same_text(name, "org.bluez.Error.NotReady") {
        (ErrorKind::PanFailure, "Bluetooth peer is not ready for a PAN connection")
    } else if same_text(name, "org.bluez.Error.DoesNotExist") || same_text(
        name,
        "org.freedesktop.DBus.Error.UnknownObject",
    ) {
        (ErrorKind::InvalidState, "Bluetooth peer is no longer available")
    } else if same_text(name, "org.freedesktop.DBus.Error.UnknownMethod") || same_text(
        name,
        "org.freedesktop.DBus.Error.UnknownInterface",
    ) || same_text(name, "org.bluez.Error.NotSupported") || same_text(
        name,
        "org.bluez.Error.NotAvailable",
    ) {
        (ErrorKind::CapabilityUnavailable, "Bluetooth peer does not expose a usable PAN network profile")
    } else {
        (ErrorKind::PanFailure, "Bluetooth PAN connection failed")
    }
}

/// The error for a failed connection call: by the method error's name, or BlueZ being
/// unavailable when the call failed otherwise; `detail` is the error's text.
pub fn connect_error(method_error: Option<&str>, detail: String) -> (error: CoreError)
    ensures
        match method_error {
            Some(name) => (error.spec_kind(), error.spec_message()) == connect_failure(name@),
            None => error.spec_kind() == ErrorKind::BluezUnavailable && error.spec_message()
                == "Bluetooth PAN connection failed because BlueZ is unavailable"@,
        },
        error.spec_diagnostic() == Some(detail@),
{
    let (kind, message) = match method_error {
        Some(name) => connect_method_error(name),
        None => (
            ErrorKind::BluezUnavailable,
            "Bluetooth PAN connection failed because BlueZ is unavailable",
        ),
    };
    CoreError::from_parts(kind, String::from_str(message), Some(detail))
}

pub open spec fn profile_unusable(name: Seq<char>) -> bool {
    name == "org.freedesktop.DBus.Error.UnknownMethod"@ || name
        == "org.freedesktop.DBus.Error.UnknownInterface"@ || name == "org.bluez.Error.NotSupported"@
        || name == "org.bluez.Error.NotAvailable"@
}

/// The error for a failed disconnection call.
pub fn disconnect_error(method_error: Option<&str>, detail: String) -> (error: CoreError)
    ensures
        error.spec_kind() == match method_error {
            Some(name) => if profile_unusable(name@) {
                ErrorKind::CapabilityUnavailable
            } else {
                ErrorKind::PanFailure
            },
            None => ErrorKind::BluezUnavailable,
        },
        error.spec_message() == "failed to disconnect the Bluetooth PAN link"@,
        error.spec_diagnostic() == Some(detail@),
{
    let kind = match method_error {
        Some(name) => if same_text(name, "org.freedesktop.DBus.Error.UnknownMethod") || same_text(
            name,
            "org.freedesktop.DBus.Error.UnknownInterface",
        ) || same_text(name, "org.bluez.Error.NotSupported") || same_text(
            name,
            "org.bluez.Error.NotAvailable",
        ) {
            ErrorKind::CapabilityUnavailable
        } else {
            ErrorKind::PanFailure
        },
        None => ErrorKind::BluezUnavailable,
    };
    CoreError::from_parts(
        kind,
        String::from_str("failed to disconnect the Bluetooth PAN link"),
        Some(detail),
    )
}

/// A failed disconnection whose method error says the link is already gone.
pub fn disconnect_is_already_absent(method_error: Option<&str>) -> (absent: bool)
    ensures
        absent == match method_error {
            Some(name) => name@ == "org.bluez.Error.NotConnected"@ || name@
                == "org.bluez.Error.DoesNotExist"@ || name@ == "org.freedesktop.DBus.Error.UnknownObject"@,
            None => false,
        },
{
    match method_error {
        Some(name) => same_text(name, "org.bluez.Error.NotConnected") || same_text(
            name,
            "org.bluez.Error.DoesNotExist",
        ) || same_text(name, "org.freedesktop.DBus.Error.UnknownObject"),
        None => false,
    }
}

/// A failed property read whose method error says the network profile is not there.
pub fn network_interface_is_absent(method_error: Option<&str>) -> (absent: bool)
    ensures
        absent == match method_error {
            Some(name) => name@ == "org.bluez.Error.DoesNotExist"@ || name@
                == "org.freedesktop.DBus.Error.UnknownObject"@ || name@
                == "org.freedesktop.DBus.Error.UnknownInterface"@,
            None => false,
        },
{
    match method_error {
        Some(name) => same_text(name, "org.bluez.Error.DoesNotExist") || same_text(
            name,
            "org.freedesktop.DBus.Error.UnknownObject",
        ) || same_text(name, "org.freedesktop.DBus.Error.UnknownInterface"),
        None => false,
    }
}

/// A D-Bus signal from BlueZ, decoded as far as the decisions about it need.
#[derive(Clone, Debug, PartialEq, Eq)]
pub enum BluezSignal {
    InterfacesAdded { path: String, interfaces: Vec<String> },
    InterfacesRemoved { path: String, interfaces: Vec<String> },
    PropertiesChanged {
        path: Option<String>,
        interface: String,
        changed: Vec<String>,
        invalidated: Vec<String>,
    },
    Other,
}

/// A signal that can mean the PANU link to `peer` went away: its network profile or device
/// object was removed, or a property that tells whether it is up changed.
pub open spec fn panu_loss_signal(signal: BluezSignal, peer: Seq<char>) -> bool {
    match signal {
        BluezSignal::InterfacesRemoved { path, interfaces } => path@ == peer && (lists(
            interfaces@,
            NETWORK_INTERFACE@,
        ) || lists(interfaces@, DEVICE_INTERFACE@)),
        BluezSignal::PropertiesChanged { path, interface, changed, invalidated } => match path {
            Some(p) => p@ == peer && panu_state_touched(interface@, changed@, invalidated@),
            None => false,
        },
        _ => false,
    }
}

pub fn panu_loss_trigger(signal: &BluezSignal, peer: &PeerHandle) -> (trigger: bool)
    ensures
        trigger == panu_loss_signal(*signal, peer@),
{
    match signal {
        BluezSignal::InterfacesRemoved { path, interfaces } => same_text(path.as_str(), peer.as_str())
            && (contains_text(interfaces, NETWORK_INTERFACE) || contains_text(
            interfaces,
            DEVICE_INTERFACE,
        )),
        BluezSignal::PropertiesChanged { path, interface, changed, invalidated } => match path {
            Some(p) => same_text(p.as_str(), peer.as_str())
                && properties_change_can_affect_panu_state(interface.as_str(), changed, invalidated),
            None => false,
        },
        _ => false,
    }
}

} // verus!
