use blueroute::domain::addressing::{ensure_ipv4_segment_available, Ipv4StarAddressPlan};
use blueroute::domain::route::{Route, RouteDestination, RouteOwner};
use blueroute::{
    BackendPreference, ConfigVersion, DaemonConfig, ErrorKind, IpAddress, IpPrefix,
    Ipv4Address, Ipv4AddressPool, Ipv6Address, NetworkId, NodeId,
};

fn v4(value: [u8; 4], prefix_len: u8) -> IpPrefix {
    IpPrefix::new(
        IpAddress::V4(Ipv4Address::new(value[0], value[1], value[2], value[3])),
        prefix_len,
    )
    .unwrap()
}

fn octets(prefix: IpPrefix) -> [u8; 4] {
    match prefix.address {
        IpAddress::V4(address) => address.octets(),
        IpAddress::V6(_) => panic!("prefix must be IPv4"),
    }
}

#[test]
fn default_configuration_is_valid_and_gateway_is_off() {
    let config = DaemonConfig::default();
    assert!(config.validate().is_ok());
    assert!(!config.gateway.sharing_enabled);
    assert_eq!(config.version, ConfigVersion::current());
}

#[test]
fn address_pool_requires_aligned_network() {
    assert!(Ipv4AddressPool::new(Ipv4Address::new(10, 201, 1, 0), 16, 24).is_err());
}

#[test]
fn address_pool_requires_segment_prefix_inside_pool() {
    assert!(Ipv4AddressPool::new(Ipv4Address::new(10, 201, 0, 0), 24, 16).is_err());
}

#[test]
fn address_pool_requires_rfc1918_private_space() {
    assert!(Ipv4AddressPool::new(Ipv4Address::new(192, 0, 2, 0), 24, 24).is_err());
    assert!(Ipv4AddressPool::new(Ipv4Address::new(100, 64, 0, 0), 10, 24).is_err());
    assert!(Ipv4AddressPool::new(Ipv4Address::new(172, 16, 0, 0), 12, 24).is_ok());
    assert!(Ipv4AddressPool::new(Ipv4Address::new(192, 168, 0, 0), 16, 24).is_ok());
}

#[test]
fn zero_link_override_is_rejected() {
    let mut config = DaemonConfig::default();
    config.topology.max_active_links = Some(0);
    assert!(config.validate().is_err());
}

#[test]
fn unknown_configuration_version_is_rejected() {
    let config = DaemonConfig {
        version: ConfigVersion::new(99),
        ..DaemonConfig::default()
    };
    assert!(config.validate().is_err());
}

#[test]
fn internet_sharing_cannot_be_enabled_before_gateway_phase() {
    let mut config = DaemonConfig::default();
    config.gateway.sharing_enabled = true;
    let error = config.validate().unwrap_err();
    assert_eq!(error.kind(), ErrorKind::CapabilityUnavailable);
}

#[test]
fn configuration_has_no_computer_model_policy() {
    let config = DaemonConfig::default();
    assert_eq!(config.backend, BackendPreference::Auto);
    assert_eq!(config.topology.max_active_links, None);
}

#[test]
fn configuration_refusals_name_the_failed_rule() {
    let config = DaemonConfig {
        version: ConfigVersion::new(7),
        ..DaemonConfig::default()
    };
    assert_eq!(
        config.validate().unwrap_err().message(),
        "unsupported configuration version 7; expected 1"
    );

    let mut config = DaemonConfig::default();
    config.backend = BackendPreference::Other("  \t ".to_string());
    let error = config.validate().unwrap_err();
    assert_eq!(error.kind(), ErrorKind::InvalidInput);
    assert_eq!(error.message(), "custom network backend name cannot be empty");

    let mut config = DaemonConfig::default();
    config.backend = BackendPreference::Other("systemd".to_string());
    assert!(config.validate().is_ok());
}

#[test]
fn network_identity_deterministically_selects_host_and_first_client() {
    let network =
        NetworkId::from_bytes([0x12, 0x34, 0x56, 0x78, 0, 0, 0, 0, 0, 0, 0, 0, 0, 0, 0, 0]);
    let plan = Ipv4StarAddressPlan::for_network(network, Ipv4AddressPool::default()).unwrap();
    assert_eq!(plan.segment.prefix_len, 24);
    assert_eq!(plan.host.prefix_len, 24);
    assert_eq!(plan.first_client.prefix_len, 24);
    let segment = octets(plan.segment);
    let host = octets(plan.host);
    let client = octets(plan.first_client);
    assert_eq!(segment[0..2], [10, 201]);
    assert_eq!(host[0..2], [10, 201]);
    assert_eq!(client[0..2], [10, 201]);
    assert_eq!(host[3], 1);
    assert_eq!(client[3], 2);
}

#[test]
fn star_plan_follows_the_leading_identifier_bytes() {
    // 0x12345678 modulo 256 segments is 0x78 = 120.
    let network =
        NetworkId::from_bytes([0x12, 0x34, 0x56, 0x78, 0, 0, 0, 0, 0, 0, 0, 0, 0, 0, 0, 0]);
    let plan = Ipv4StarAddressPlan::for_network(network, Ipv4AddressPool::default()).unwrap();
    assert_eq!(octets(plan.segment), [10, 201, 120, 0]);
    assert_eq!(octets(plan.host), [10, 201, 120, 1]);
    assert_eq!(octets(plan.first_client), [10, 201, 120, 2]);
}

#[test]
fn conflict_detection_normalizes_host_prefixes_and_ignores_default_route() {
    let candidate = v4([10, 201, 44, 1], 24);
    ensure_ipv4_segment_available(candidate, &[v4([0, 0, 0, 0], 0)]).unwrap();

    let error =
        ensure_ipv4_segment_available(candidate, &[v4([10, 201, 44, 99], 24)]).unwrap_err();
    assert_eq!(error.kind(), ErrorKind::AddressConflict);
    assert!(error.diagnostic().unwrap().contains("10.201.44.0/24"));
}

#[test]
fn broader_and_narrower_overlaps_are_rejected() {
    let candidate = v4([10, 201, 44, 0], 24);
    assert_eq!(
        ensure_ipv4_segment_available(candidate, &[v4([10, 201, 0, 0], 16)])
            .unwrap_err()
            .kind(),
        ErrorKind::AddressConflict
    );
    assert_eq!(
        ensure_ipv4_segment_available(candidate, &[v4([10, 201, 44, 128], 25)])
            .unwrap_err()
            .kind(),
        ErrorKind::AddressConflict
    );
    ensure_ipv4_segment_available(candidate, &[v4([10, 201, 45, 0], 24)]).unwrap();
}

#[test]
fn allocation_is_stateless_across_repeated_calls() {
    let network = NetworkId::from_bytes([0x9a; 16]);
    let first = Ipv4StarAddressPlan::for_network(network, Ipv4AddressPool::default()).unwrap();
    let second = Ipv4StarAddressPlan::for_network(network, Ipv4AddressPool::default()).unwrap();
    assert_eq!(first, second);
}

#[test]
fn prefix_validation_supports_ipv4_and_ipv6() {
    let localhost4 = IpAddress::V4(Ipv4Address::new(127, 0, 0, 1));
    let localhost6 = IpAddress::V6(Ipv6Address(1));
    assert!(IpPrefix::new(localhost4, 32).is_ok());
    assert!(IpPrefix::new(localhost4, 33).is_err());
    assert!(IpPrefix::new(localhost6, 128).is_ok());
    assert!(IpPrefix::new(localhost6, 129).is_err());
}

#[test]
fn route_model_reserves_internet_destination() {
    let route = Route {
        destination: RouteDestination::Internet,
        next_hop: NodeId::from_bytes([2; 16]),
        cost: 10,
        owner: RouteOwner::BlueRouteNetwork(NetworkId::from_bytes([3; 16])),
    };
    assert_eq!(route.destination, RouteDestination::Internet);
}
