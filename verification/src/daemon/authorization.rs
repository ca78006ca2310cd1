use vstd::prelude::*;

use crate::protocol::Command;
use crate::text::push_str;

verus! {

/// The PolicyKit action that guards changes to BlueRoute state.
pub const MODIFY_ACTION_ID: &'static str = "org.blueroute.modify";

/// The PolicyKit action reserved for Internet sharing.
pub const INTERNET_SHARING_ACTION_ID: &'static str = "org.blueroute.internet-sharing";

/// What a command needs before it runs: nothing, or a PolicyKit action.
#[derive(Clone, Copy, Debug, PartialEq, Eq)]
pub enum CommandAuthorization {
    ReadOnly,
    PolicyKit(&'static str),
}

/// The command only reads state.
pub open spec fn read_only_command(command: Command) -> bool {
    match command {
        Command::GetStatus | Command::GetCapabilities | Command::ListNetworks | Command::ListNodes
        | Command::GetNode { .. } | Command::GetDiagnostics => true,
        _ => false,
    }
}

/// Reads are open; every change needs PolicyKit's modify action, and Internet sharing its
/// own action.
pub fn command_authorization(command: &Command) -> (authorization: CommandAuthorization)
    ensures
        read_only_command(*command) ==> authorization == CommandAuthorization::ReadOnly,
        !read_only_command(*command) ==> match authorization {
            CommandAuthorization::PolicyKit(action) => action@ == if command is SetInternetSharing {
                INTERNET_SHARING_ACTION_ID@
            } else {
                MODIFY_ACTION_ID@
            },
            CommandAuthorization::ReadOnly => false,
        },
{
    match command {
        Command::GetStatus | Command::GetCapabilities | Command::ListNetworks | Command::ListNodes
        | Command::GetNode { .. } | Command::GetDiagnostics => CommandAuthorization::ReadOnly,
        Command::CreateNetwork { .. } | Command::JoinNetwork { .. } | Command::LeaveNetwork
        | Command::SetDeviceName { .. } | Command::StartDiscovery | Command::StopDiscovery
        | Command::TrustPeer { .. } | Command::ForgetPeer { .. } => CommandAuthorization::PolicyKit(
            MODIFY_ACTION_ID,
        ),
        Command::SetInternetSharing { .. } => CommandAuthorization::PolicyKit(
            INTERNET_SHARING_ACTION_ID,
        ),
    }
}

/// The operation name of a command, as reported to users.
pub open spec fn operation_name(command: Command) -> Seq<char> {
    match command {
        Command::GetStatus => "get_status"@,
        Command::GetCapabilities => "get_capabilities"@,
        Command::ListNetworks => "list_networks"@,
        Command::CreateNetwork { .. } => "create_network"@,
        Command::JoinNetwork { .. } => "join_network"@,
        Command::LeaveNetwork => "leave_network"@,
        Command::ListNodes => "list_nodes"@,
        Command::GetNode { .. } => "get_node"@,
        Command::SetDeviceName { .. } => "set_device_name"@,
        Command::StartDiscovery => "start_discovery"@,
        Command::StopDiscovery => "stop_discovery"@,
        Command::TrustPeer { .. } => "trust_peer"@,
        Command::ForgetPeer { .. } => "forget_peer"@,
        Command::GetDiagnostics => "get_diagnostics"@,
        Command::SetInternetSharing { .. } => "set_internet_sharing"@,
    }
}

pub fn command_operation(command: &Command) -> (operation: &'static str)
    ensures
        operation@ == operation_name(*command),
{
    match command {
        Command::GetStatus => "get_status",
        Command::GetCapabilities => "get_capabilities",
        Command::ListNetworks => "list_networks",
        Command::CreateNetwork { .. } => "create_network",
        Command::JoinNetwork { .. } => "join_network",
        Command::LeaveNetwork => "leave_network",
        Command::ListNodes => "list_nodes",
        Command::GetNode { .. } => "get_node",
        Command::SetDeviceName { .. } => "set_device_name",
        Command::StartDiscovery => "start_discovery",
        Command::StopDiscovery => "stop_discovery",
        Command::TrustPeer { .. } => "trust_peer",
        Command::ForgetPeer { .. } => "forget_peer",
        Command::GetDiagnostics => "get_diagnostics",
        Command::SetInternetSharing { .. } => "set_internet_sharing",
    }
}

/// The refusal text when PolicyKit denies a command.
pub fn authorization_denied_message(command: &Command) -> (message: String)
    ensures
        message@ == "authorization denied for BlueRoute operation "@ + operation_name(*command),
{
    let mut message = String::from_str("authorization denied for BlueRoute operation ");
    push_str(&mut message, command_operation(command));
    message
}

/// The refusal text when PolicyKit cannot be asked.
pub fn authorization_unavailable_message(command: &Command) -> (message: String)
    ensures
        message@ == "authorization unavailable; refusing privileged BlueRoute operation "@
            + operation_name(*command),
{
    let mut message = String::from_str(
        "authorization unavailable; refusing privileged BlueRoute operation ",
    );
    push_str(&mut message, command_operation(command));
    message
}

} // verus!
