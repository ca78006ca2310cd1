use vstd::prelude::*;

use crate::domain::capability::NodeCapabilities;
use crate::domain::error::{CoreError, ErrorKind};
use crate::domain::health::HealthLevel;
use crate::domain::id::NetworkId;
use crate::daemon::join_network::{JoinControlSession, JoinIpLease, JoinPanLink};
use crate::domain::id::NodeId;
use crate::linux::stores::NetworkMembershipStore;
use crate::protocol::{ApiVersion, Command, DaemonStatus, DBUS_INTERFACE_NAME};
use crate::text::push_str;

verus! {

/// The daemon's local API service and the status it reports.
#[derive(Clone, Debug)]
pub struct DaemonService {
    status: DaemonStatus,
}

impl DaemonService {
    pub closed spec fn spec_status(&self) -> DaemonStatus {
        self.status
    }

    /// A service for `local_node`, speaking the current API version, in no network yet.
    pub fn new(local_node: NodeId, health: HealthLevel, capabilities: NodeCapabilities) -> (service: Self)
        ensures
            service.spec_status().api_version == ApiVersion::current_spec(),
            service.spec_status().local_node == Some(local_node),
            service.spec_status().current_network is None,
            service.spec_status().health == health,
            service.spec_status().capabilities == capabilities,
    {
        DaemonService {
            status: DaemonStatus {
                api_version: ApiVersion::current(),
                local_node: Some(local_node),
                current_network: None,
                health,
                capabilities,
            },
        }
    }

    pub fn from_status(status: DaemonStatus) -> (service: Self)
        ensures
            service.spec_status() == status,
    {
        DaemonService { status }
    }

    pub fn status_snapshot(&self) -> (status: &DaemonStatus)
        ensures
            *status == self.spec_status(),
    {
        &self.status
    }

    /// The API version the service speaks, as (major, minor).
    pub fn version(&self) -> (version: (u16, u16))
        ensures
            version == (ApiVersion::current_spec().major, ApiVersion::current_spec().minor),
    {
        let current = ApiVersion::current();
        (current.major, current.minor)
    }
}

/// What the service does with a request.
#[derive(Clone, Copy, Debug, PartialEq, Eq, Structural)]
pub enum RequestHandling {
    Status,
    Capabilities,
    NotSupported,
}

/// Status and capability queries are answered; everything else is not supported yet.
pub fn request_handling(command: &Command) -> (handling: RequestHandling)
    ensures
        handling == match *command {
            Command::GetStatus => RequestHandling::Status,
            Command::GetCapabilities => RequestHandling::Capabilities,
            _ => RequestHandling::NotSupported,
        },
{
    match command {
        Command::GetStatus => RequestHandling::Status,
        Command::GetCapabilities => RequestHandling::Capabilities,
        _ => RequestHandling::NotSupported,
    }
}

/// The D-Bus interface name the service is published under.
pub fn dbus_interface_name() -> (name: &'static str)
    ensures
        name@ == DBUS_INTERFACE_NAME@,
{
    DBUS_INTERFACE_NAME
}

/// `name` inside directory `directory`, joined as paths are: no separator is added after
/// an empty directory or one that already ends with `/`.
pub open spec fn path_in(directory: Seq<char>, name: Seq<char>) -> Seq<char> {
    if directory.len() == 0 {
        name
    } else if directory.last() == '/' {
        directory + name
    } else {
        directory + seq!['/'] + name
    }
}

fn join_path(directory: &str, name: &str) -> (path: String)
    ensures
        path@ == path_in(directory@, name@),
{
    let chars = crate::text::chars_of(directory);
    let mut path = String::from_str(directory);
    if chars.len() > 0 && chars[chars.len() - 1] != '/' {
        crate::text::push_char(&mut path, '/');
    }
    push_str(&mut path, name);
    path
}

/// Where the node identity is kept inside the state directory.
pub fn node_identity_path(state_directory: &str) -> (path: String)
    ensures
        path@ == path_in(state_directory@, "node-id"@),
{
    join_path(state_directory, "node-id")
}

/// Where network membership is kept inside the state directory.
pub fn network_membership_path(state_directory: &str) -> (path: String)
    ensures
        path@ == path_in(state_directory@, "memberships-v1"@),
{
    join_path(state_directory, "memberships-v1")
}

/// The Linux runtime of joins. Until address allocation and authenticated control sessions
/// exist, every step refuses, starting with the preflight, so that no join mutates Bluetooth
/// or durable state.
#[derive(Clone, Copy, Debug, Default)]
pub struct LinuxJoinRuntime;

/// A refusal of kind `CapabilityUnavailable` with this message and no diagnostic.
pub open spec fn unavailable_with(error: CoreError, message: Seq<char>) -> bool {
    &&& error.spec_kind() == ErrorKind::CapabilityUnavailable
    &&& error.spec_message() == message
    &&& error.spec_diagnostic() is None
}

impl LinuxJoinRuntime {
    pub fn preflight(&self, _network: NetworkId) -> (result: Result<(), CoreError>)
        ensures
            match result {
                Err(error) => error.spec_kind() == ErrorKind::CapabilityUnavailable
                    && error.spec_message()
                    == "BlueRoute join requires P6-005 address allocation and P7 authenticated control-session support"@
                    && error.spec_diagnostic() == Some(
                    "production JoinNetwork is refusing to mutate Bluetooth or durable membership state until both prerequisites are implemented"@,
                ),
                Ok(()) => false,
            },
    {
        Err(CoreError::with_diagnostic(
            ErrorKind::CapabilityUnavailable,
            "BlueRoute join requires P6-005 address allocation and P7 authenticated control-session support",
            "production JoinNetwork is refusing to mutate Bluetooth or durable membership state until both prerequisites are implemented",
        ))
    }

    pub fn establish_panu(&self, _network: NetworkId) -> (result: Result<JoinPanLink, CoreError>)
        ensures
            match result {
                Err(error) => unavailable_with(
                    error,
                    "production PANU join activation is blocked until join prerequisites are complete"@,
                ),
                Ok(_) => false,
            },
    {
        Err(CoreError::new(
            ErrorKind::CapabilityUnavailable,
            "production PANU join activation is blocked until join prerequisites are complete",
        ))
    }

    pub fn disconnect_panu(&self, _link: JoinPanLink) -> (result: Result<(), CoreError>)
        ensures
            match result {
                Err(error) => unavailable_with(
                    error,
                    "production PANU cleanup is not implemented for JoinNetwork yet"@,
                ),
                Ok(()) => false,
            },
    {
        Err(CoreError::new(
            ErrorKind::CapabilityUnavailable,
            "production PANU cleanup is not implemented for JoinNetwork yet",
        ))
    }

    pub fn configure_ip(&self, _network: NetworkId, _link: &JoinPanLink) -> (result: Result<JoinIpLease, CoreError>)
        ensures
            match result {
                Err(error) => unavailable_with(
                    error,
                    "P6-005 address allocation is required before PANU join can configure IP"@,
                ),
                Ok(_) => false,
            },
    {
        Err(CoreError::new(
            ErrorKind::CapabilityUnavailable,
            "P6-005 address allocation is required before PANU join can configure IP",
        ))
    }

    pub fn remove_ip(&self, _lease: JoinIpLease) -> (result: Result<(), CoreError>)
        ensures
            match result {
                Err(error) => unavailable_with(
                    error,
                    "production PANU address cleanup is not implemented for JoinNetwork yet"@,
                ),
                Ok(()) => false,
            },
    {
        Err(CoreError::new(
            ErrorKind::CapabilityUnavailable,
            "production PANU address cleanup is not implemented for JoinNetwork yet",
        ))
    }

    pub fn start_control_session(&self, _network: NetworkId, _link: &JoinPanLink, _lease: &JoinIpLease) -> (result: Result<JoinControlSession, CoreError>)
        ensures
            match result {
                Err(error) => unavailable_with(
                    error,
                    "P7 authenticated control-session support is required before PANU join can commit membership"@,
                ),
                Ok(_) => false,
            },
    {
        Err(CoreError::new(
            ErrorKind::CapabilityUnavailable,
            "P7 authenticated control-session support is required before PANU join can commit membership",
        ))
    }

    pub fn stop_control_session(&self, _session: JoinControlSession) -> (result: Result<(), CoreError>)
        ensures
            match result {
                Err(error) => unavailable_with(
                    error,
                    "production control-session cleanup is not implemented for JoinNetwork yet"@,
                ),
                Ok(()) => false,
            },
    {
        Err(CoreError::new(
            ErrorKind::CapabilityUnavailable,
            "production control-session cleanup is not implemented for JoinNetwork yet",
        ))
    }
}

/// Joins that commit durable membership only after their runtime steps, with `runtime`
/// performing those steps.
pub struct TransactionalJoinNetworkOperations<R> {
    store: NetworkMembershipStore,
    runtime: R,
}

impl TransactionalJoinNetworkOperations<LinuxJoinRuntime> {
    pub fn new(store: NetworkMembershipStore) -> (operations: Self)
        ensures
            operations.spec_store() == store,
    {
        TransactionalJoinNetworkOperations { store, runtime: LinuxJoinRuntime }
    }
}

impl<R> TransactionalJoinNetworkOperations<R> {
    pub closed spec fn spec_store(&self) -> NetworkMembershipStore {
        self.store
    }

    pub closed spec fn spec_runtime(&self) -> R {
        self.runtime
    }

    pub fn with_runtime(store: NetworkMembershipStore, runtime: R) -> (operations: Self)
        ensures
            operations.spec_store() == store,
            operations.spec_runtime() == runtime,
    {
        TransactionalJoinNetworkOperations { store, runtime }
    }

    pub fn store(&self) -> (store: &NetworkMembershipStore)
        ensures
            *store == self.spec_store(),
    {
        &self.store
    }

    pub fn runtime(&self) -> (runtime: &R)
        ensures
            *runtime == self.spec_runtime(),
    {
        &self.runtime
    }
}

} // verus!
