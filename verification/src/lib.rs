//! Hardware-independent BlueRoute domain logic, the Linux adapter logic that decides
//! what to do with observed system state, and the daemon's transactional decisions.

pub mod daemon;
pub mod domain;
pub mod linux;
pub mod protocol;
pub mod text;
pub mod text_order;

pub use domain::capability::{
    CapabilitySource, LinkQuality, NetworkBackend, NodeCapabilities, PowerState, Sourced,
};
pub use domain::config::{
    BackendPreference, ConfigVersion, DaemonConfig, GatewayPolicy, Ipv4AddressPool, TopologyPolicy,
};
pub use domain::error::{CoreError, ErrorKind};
pub use domain::health::{HealthComponent, HealthLevel, NodeHealth};
pub use domain::id::{DisplayName, LinkId, NetworkId, NodeId, SegmentId};
pub use domain::membership::{MembershipRegistry, MembershipState, NetworkMembership, PeerMembership};
pub use domain::route::{IpAddress, IpPrefix, Ipv4Address, Ipv6Address, Route, RouteDestination, RouteOwner};
pub use domain::secret::Secret;
pub use domain::topology::{LinkHealth, LinkState, PanLink, PanSegment, Reachability, TopologyGraph};
pub use linux::handles::{
    AdapterHandle, BluetoothAdapter, BluetoothAdapterEvent, BluetoothPeerEvent, DiscoveredPeer,
    IncomingPairingWindow, InterfaceAddress, LinuxRoute, NapEvent, NetworkConnection,
    NetworkConnectionHandle, NetworkDevice, NetworkDeviceHandle, NetworkInterfaceHandle,
    NetworkStateEvent, PanAttachment, PanRole, PanuEvent, PeerHandle, RuntimeCapabilities,
};
pub use protocol::{
    ApiCompatibility, ApiVersion, Command, DaemonStatus, DiagnosticSnapshot, Event, NetworkSummary,
    NodeSummary, ProtocolCodecError, Response,
};
