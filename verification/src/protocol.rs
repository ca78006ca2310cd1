use vstd::prelude::*;

use crate::domain::capability::NodeCapabilities;
use crate::domain::health::HealthLevel;
use crate::domain::id::{DisplayName, LinkId, NetworkId, NodeId};
use crate::domain::membership::MembershipState;
use crate::domain::route::Route;
use crate::domain::topology::{LinkHealth, LinkState, Reachability};
use crate::text::{decimal, push_char, push_decimal};

verus! {

/// Version of the local daemon API contract.
///
/// Major versions are incompatible. Minor versions are additive: a server can serve a client
/// with the same major version and a minor version no newer than the server's own.
#[derive(Clone, Copy, Debug, PartialEq, Eq, PartialOrd, Ord, Hash, Structural)]
pub struct ApiVersion {
    pub major: u16,
    pub minor: u16,
}

#[derive(Clone, Copy, Debug, PartialEq, Eq, Structural)]
pub enum ApiCompatibility {
    Exact,
    Compatible,
    Incompatible,
}

/// How a client of version `client` fares with a server of version `server`.
pub open spec fn compatibility(client: ApiVersion, server: ApiVersion) -> ApiCompatibility {
    if client.major != server.major || client.minor > server.minor {
        ApiCompatibility::Incompatible
    } else if client.minor == server.minor {
        ApiCompatibility::Exact
    } else {
        ApiCompatibility::Compatible
    }
}

/// The text "major.minor".
pub open spec fn version_text(version: ApiVersion) -> Seq<char> {
    decimal(version.major as nat) + seq!['.'] + decimal(version.minor as nat)
}

impl ApiVersion {
    pub open spec fn current_spec() -> Self {
        ApiVersion { major: 1, minor: 0 }
    }

    /// The version this library speaks: 1.0.
    pub fn current() -> (version: Self)
        ensures
            version == Self::current_spec(),
    {
        ApiVersion { major: 1, minor: 0 }
    }

    pub fn new(major: u16, minor: u16) -> (version: Self)
        ensures
            version.major == major,
            version.minor == minor,
    {
        ApiVersion { major, minor }
    }

    pub fn compatibility_with_server(self, server: Self) -> (result: ApiCompatibility)
        ensures
            result == compatibility(self, server),
    {
        if self.major != server.major || self.minor > server.minor {
            ApiCompatibility::Incompatible
        } else if self.minor == server.minor {
            ApiCompatibility::Exact
        } else {
            ApiCompatibility::Compatible
        }
    }

    pub fn is_compatible_with_server(self, server: Self) -> (compatible: bool)
        ensures
            compatible == (compatibility(self, server) != ApiCompatibility::Incompatible),
            compatible == (self.major == server.major && self.minor <= server.minor),
    {
        match self.compatibility_with_server(server) {
            ApiCompatibility::Incompatible => false,
            _ => true,
        }
    }

    /// The text "major.minor".
    pub fn to_string(&self) -> (text: String)
        ensures
            text@ == version_text(*self),
    {
        let mut text = String::new();
        push_decimal(&mut text, self.major as u64);
        push_char(&mut text, '.');
        push_decimal(&mut text, self.minor as u64);
        assert(text@ =~= version_text(*self));
        text
    }
}

/// Well-known system D-Bus service name of the daemon API, first version.
pub const DBUS_SERVICE_NAME: &'static str = "org.blueroute.Service1";

/// Well-known root object path of the daemon API, first version.
pub const DBUS_OBJECT_PATH: &'static str = "/org/blueroute/Service1";

/// Well-known D-Bus interface of the daemon API, first version.
pub const DBUS_INTERFACE_NAME: &'static str = "org.blueroute.Service1";

#[derive(Clone, Debug, PartialEq, Eq)]
pub struct NetworkSummary {
    pub id: NetworkId,
    pub name: DisplayName,
    pub member_count: u32,
}

#[derive(Clone, Debug, PartialEq, Eq)]
pub struct NodeSummary {
    pub id: NodeId,
    pub name: DisplayName,
    pub reachability: Reachability,
}

#[derive(Clone, Debug, PartialEq, Eq)]
pub struct DaemonStatus {
    pub api_version: ApiVersion,
    pub local_node: Option<NodeId>,
    pub current_network: Option<NetworkId>,
    pub health: HealthLevel,
    pub capabilities: NodeCapabilities,
}

#[derive(Clone, Debug, PartialEq, Eq)]
pub struct DiagnosticSnapshot {
    pub api_version: ApiVersion,
    pub health: HealthLevel,
    pub current_network: Option<NetworkId>,
    pub visible_nodes: u32,
    pub capabilities: NodeCapabilities,
}

/// Semantic local-daemon operations shared by all front ends.
#[derive(Clone, Debug, PartialEq, Eq)]
pub enum Command {
    GetStatus,
    GetCapabilities,
    ListNetworks,
    CreateNetwork { name: DisplayName },
    JoinNetwork { network: NetworkId },
    LeaveNetwork,
    ListNodes,
    GetNode { node: NodeId },
    SetDeviceName { name: DisplayName },
    StartDiscovery,
    StopDiscovery,
    TrustPeer { node: NodeId },
    ForgetPeer { node: NodeId },
    GetDiagnostics,
    /// Reserved for the future gateway phase; current daemons reject it.
    SetInternetSharing { enabled: bool },
}

#[derive(Clone, Debug, PartialEq, Eq)]
pub enum Response {
    Ack,
    Status(DaemonStatus),
    Capabilities(NodeCapabilities),
    Networks(Vec<NetworkSummary>),
    Nodes(Vec<NodeSummary>),
    Node(Option<NodeSummary>),
    Diagnostics(DiagnosticSnapshot),
}

/// State-change events published by the daemon to local clients.
#[derive(Clone, Debug, PartialEq, Eq)]
pub enum Event {
    NetworkDiscovered(NetworkSummary),
    NetworkLost(NetworkId),
    NodeChanged(NodeSummary),
    NodeDisconnected(NodeId),
    CapabilitiesChanged { node: NodeId, capabilities: NodeCapabilities },
    MembershipChanged { network: NetworkId, state: MembershipState },
    LinkChanged { link: LinkId, state: LinkState, health: LinkHealth },
    TopologyChanged { network: NetworkId },
    RouteChanged(Route),
    HealthChanged(HealthLevel),
    AuthorizationFailed { operation: String },
    InternetAvailabilityChanged { available: bool },
    /// Reserved for the future gateway phase.
    GatewayAvailabilityChanged { node: NodeId, available: bool },
}

/// Stable error boundary for malformed local protocol payloads.
#[derive(Clone, Debug, PartialEq, Eq)]
pub struct ProtocolCodecError {
    message: String,
}

impl ProtocolCodecError {
    pub closed spec fn spec_message(&self) -> Seq<char> {
        self.message@
    }

    /// An error that reports `message`.
    pub fn from_message(message: String) -> (error: Self)
        ensures
            error.spec_message() == message@,
    {
        ProtocolCodecError { message }
    }

    pub fn message(&self) -> (message: &str)
        ensures
            message@ == self.spec_message(),
    {
        self.message.as_str()
    }
}

/// The name of a response's kind, as a client reports an unexpected one.
pub open spec fn response_kind_name(response: Response) -> Seq<char> {
    match response {
        Response::Ack => "ack"@,
        Response::Status(_) => "status"@,
        Response::Capabilities(_) => "capabilities"@,
        Response::Networks(_) => "networks"@,
        Response::Nodes(_) => "nodes"@,
        Response::Node(_) => "node"@,
        Response::Diagnostics(_) => "diagnostics"@,
    }
}

pub fn response_kind(response: &Response) -> (kind: &'static str)
    ensures
        kind@ == response_kind_name(*response),
{
    match response {
        Response::Ack => "ack",
        Response::Status(_) => "status",
        Response::Capabilities(_) => "capabilities",
        Response::Networks(_) => "networks",
        Response::Nodes(_) => "nodes",
        Response::Node(_) => "node",
        Response::Diagnostics(_) => "diagnostics",
    }
}

} // verus!
