use blueroute::domain::id::ID_BYTES;
use blueroute::{
    CapabilitySource, CoreError, DisplayName, ErrorKind, HealthComponent, HealthLevel, LinkHealth,
    LinkId, LinkState, MembershipRegistry, MembershipState, NetworkBackend, NetworkId,
    NetworkMembership, NodeCapabilities, NodeHealth, NodeId, PanLink, PanSegment, Secret,
    SegmentId, Sourced, TopologyGraph,
};

#[test]
fn heterogeneous_nodes_need_no_model_specific_type() {
    let client_only = NodeCapabilities {
        adapter_usable: Some(Sourced::new(true, CapabilitySource::Discovered)),
        panu: Some(Sourced::new(true, CapabilitySource::Measured)),
        nap: Some(Sourced::new(false, CapabilitySource::Measured)),
        network_backend: Some(Sourced::new(
            NetworkBackend::NetworkManager,
            CapabilitySource::Discovered,
        )),
        ..NodeCapabilities::default()
    };
    let router = NodeCapabilities {
        panu: Some(Sourced::new(true, CapabilitySource::Measured)),
        nap: Some(Sourced::new(true, CapabilitySource::Measured)),
        routing: Some(Sourced::new(true, CapabilitySource::Configured)),
        connection_policy_ceiling: Some(Sourced::new(4, CapabilitySource::ConservativeDefault)),
        ..NodeCapabilities::default()
    };
    assert_eq!(client_only.can_host_pan(), Some(false));
    assert_eq!(router.can_host_pan(), Some(true));
    assert_eq!(router.can_route(), Some(true));
}

#[test]
fn internet_presence_is_distinct_from_willingness_to_share() {
    let capabilities = NodeCapabilities {
        has_internet: Some(Sourced::new(true, CapabilitySource::Discovered)),
        willing_to_share_internet: Some(Sourced::new(false, CapabilitySource::Configured)),
        ..NodeCapabilities::default()
    };
    assert!(capabilities.has_internet.unwrap().value);
    assert!(!capabilities.willing_to_share_internet.unwrap().value);
}

#[test]
fn friendly_message_is_separate_from_diagnostic_context() {
    let error = CoreError::with_diagnostic(
        ErrorKind::BluezUnavailable,
        "Bluetooth service is unavailable",
        "org.freedesktop.DBus.Error.ServiceUnknown",
    );
    assert_eq!(error.to_string(), "Bluetooth service is unavailable");
    assert_eq!(error.kind(), ErrorKind::BluezUnavailable);
    assert_eq!(
        error.diagnostic(),
        Some("org.freedesktop.DBus.Error.ServiceUnknown")
    );
}

#[test]
fn missing_optional_gateway_does_not_hurt_local_network_health() {
    let health = NodeHealth {
        adapter: Some(HealthComponent::required(HealthLevel::Healthy)),
        runtime_prerequisites: Some(HealthComponent::required(HealthLevel::Healthy)),
        membership: Some(HealthComponent::required(HealthLevel::Healthy)),
        links: Some(HealthComponent::required(HealthLevel::Healthy)),
        topology: Some(HealthComponent::required(HealthLevel::Healthy)),
        gateway: None,
    };
    assert_eq!(health.aggregate(), HealthLevel::Healthy);
}

#[test]
fn optional_feature_error_degrades_instead_of_failing_node() {
    let health = NodeHealth {
        gateway: Some(HealthComponent::optional(HealthLevel::Error)),
        ..NodeHealth::default()
    };
    assert_eq!(health.aggregate(), HealthLevel::Degraded);
}

#[test]
fn required_error_wins() {
    let health = NodeHealth {
        adapter: Some(HealthComponent::required(HealthLevel::Error)),
        links: Some(HealthComponent::required(HealthLevel::Reconnecting)),
        ..NodeHealth::default()
    };
    assert_eq!(health.aggregate(), HealthLevel::Error);
}

#[test]
fn identifiers_have_deterministic_lowercase_serialization() {
    let id = NodeId::from_bytes([
        0x00, 0x11, 0x22, 0x33, 0x44, 0x55, 0x66, 0x77, 0x88, 0x99, 0xaa, 0xbb, 0xcc, 0xdd, 0xee,
        0xff,
    ]);
    assert_eq!(id.to_string(), "00112233445566778899aabbccddeeff");
}

#[test]
fn identifiers_parse_uppercase_and_round_trip_canonically() {
    let id: NetworkId = "00112233445566778899AABBCCDDEEFF".parse().unwrap();
    assert_eq!(id.to_string(), "00112233445566778899aabbccddeeff");
}

#[test]
fn invalid_identifiers_are_rejected() {
    assert!("abc".parse::<NodeId>().is_err());
    assert!("zz112233445566778899aabbccddeeff".parse::<NodeId>().is_err());
}

#[test]
fn display_name_is_not_part_of_node_identity() {
    let id = NodeId::from_bytes([7; ID_BYTES]);
    let first = DisplayName::new("Lab laptop").unwrap();
    let second = DisplayName::new("Renamed laptop").unwrap();

    assert_ne!(first, second);
    assert_eq!(id, NodeId::from_bytes([7; ID_BYTES]));
}

fn network_id() -> NetworkId {
    NetworkId::from_bytes([1; 16])
}

#[test]
fn legal_join_and_leave_transitions_work() {
    let state = MembershipState::NotMember
        .transition(MembershipState::Joining)
        .unwrap()
        .transition(MembershipState::Member)
        .unwrap()
        .transition(MembershipState::Leaving)
        .unwrap()
        .transition(MembershipState::NotMember)
        .unwrap();
    assert_eq!(state, MembershipState::NotMember);
}

#[test]
fn illegal_transition_is_rejected() {
    assert!(
        MembershipState::NotMember
            .transition(MembershipState::Member)
            .is_err()
    );
}

#[test]
fn network_name_is_separate_from_network_identity() {
    let mut membership = NetworkMembership::new(network_id(), DisplayName::new("Workshop").unwrap());
    membership.network_name = DisplayName::new("Renamed workshop").unwrap();
    assert_eq!(membership.network_id, network_id());
}

#[test]
fn known_membership_and_trust_are_independent_and_revocable() {
    let mut membership = NetworkMembership::new(network_id(), DisplayName::new("Workshop").unwrap());
    let peer = NodeId::from_bytes([2; 16]);

    assert!(membership.remember_peer(peer));
    assert!(membership.is_peer_known(&peer));
    assert!(!membership.is_peer_member(&peer));
    assert!(!membership.is_peer_trusted(&peer));

    assert!(membership.set_peer_member(peer, true));
    assert!(membership.is_peer_member(&peer));
    assert!(!membership.is_peer_trusted(&peer));

    assert!(membership.trust_peer(peer));
    assert!(membership.is_peer_trusted(&peer));
    assert!(membership.untrust_peer(&peer));
    assert!(!membership.is_peer_trusted(&peer));
    assert!(membership.is_peer_member(&peer));

    assert!(membership.forget_peer(&peer));
    assert!(!membership.is_peer_known(&peer));
}

#[test]
fn trusted_peers_are_deterministic() {
    let mut membership = NetworkMembership::new(network_id(), DisplayName::new("Workshop").unwrap());
    let high = NodeId::from_bytes([9; 16]);
    let low = NodeId::from_bytes([2; 16]);
    membership.trust_peer(high);
    membership.trust_peer(low);
    let peers: Vec<NodeId> = membership.trusted_peers();
    assert_eq!(peers, vec![low, high]);
}

#[test]
fn registry_remembers_and_forgets_networks_deterministically() {
    let low = NetworkId::from_bytes([1; 16]);
    let high = NetworkId::from_bytes([9; 16]);
    let mut registry = MembershipRegistry::default();
    registry.remember_network(NetworkMembership::new(high, DisplayName::new("High").unwrap()));
    registry.remember_network(NetworkMembership::new(low, DisplayName::new("Low").unwrap()));

    let ids: Vec<NetworkId> = registry
        .networks()
        .iter()
        .map(|membership| membership.network_id)
        .collect();
    assert_eq!(ids, vec![low, high]);
    assert!(registry.forget_network(&low).is_some());
    assert!(registry.network(&low).is_none());
}

#[test]
fn debug_and_display_redact_secret_contents() {
    let secret = Secret::new("correct horse battery staple".to_owned());

    let debug = secret.debug_text();
    let display = secret.to_string();
    assert_eq!(debug, "Secret(\"[REDACTED]\")");
    assert_eq!(display, "[REDACTED]");
    assert!(!debug.contains("correct horse battery staple"));
    assert!(!display.contains("correct horse battery staple"));
}

#[test]
fn secret_contents_require_explicit_exposure() {
    let secret = Secret::new(vec![1_u8, 2, 3, 4]);
    assert_eq!(secret.expose(), &[1, 2, 3, 4]);
}

fn node(value: u8) -> NodeId {
    NodeId::from_bytes([value; 16])
}

fn link(value: u8) -> LinkId {
    LinkId::from_bytes([value; 16])
}

fn segment(value: u8) -> SegmentId {
    SegmentId::from_bytes([value; 16])
}

fn active_link(id: u8, segment_id: u8, nap: u8, panu: u8) -> PanLink {
    PanLink {
        id: link(id),
        segment_id: segment(segment_id),
        nap: node(nap),
        panu: node(panu),
        state: LinkState::Active,
        health: LinkHealth::Healthy,
        cost: 1,
    }
}

fn add_node(graph: &mut TopologyGraph, value: u8, nap: bool) {
    graph.add_node(
        node(value),
        NodeCapabilities {
            nap: Some(Sourced::new(nap, CapabilitySource::Measured)),
            panu: Some(Sourced::new(true, CapabilitySource::Measured)),
            ..NodeCapabilities::default()
        },
    );
}

#[test]
fn single_star_is_representable() {
    let mut graph = TopologyGraph::default();
    add_node(&mut graph, 1, true);
    add_node(&mut graph, 2, false);
    add_node(&mut graph, 3, false);
    graph
        .add_segment(PanSegment::new(segment(1), node(1)))
        .unwrap();
    graph.add_link(active_link(1, 1, 1, 2)).unwrap();
    graph.add_link(active_link(2, 1, 1, 3)).unwrap();

    assert!(graph.is_directly_reachable(node(1), node(2)));
    assert!(graph.is_routed_reachable(node(2), node(3)));
    assert_eq!(
        graph.shortest_path(node(2), node(3)).unwrap(),
        vec![node(2), node(1), node(3)]
    );
}

#[test]
fn routed_multi_star_graph_is_representable() {
    let mut graph = TopologyGraph::default();
    for value in 1..=4 {
        add_node(&mut graph, value, value == 1 || value == 3);
    }
    graph
        .add_segment(PanSegment::new(segment(1), node(1)))
        .unwrap();
    graph
        .add_segment(PanSegment::new(segment(2), node(3)))
        .unwrap();
    graph.add_link(active_link(1, 1, 1, 2)).unwrap();
    graph.add_link(active_link(2, 1, 1, 3)).unwrap();
    graph.add_link(active_link(3, 2, 3, 4)).unwrap();

    assert_eq!(
        graph.shortest_path(node(2), node(4)).unwrap(),
        vec![node(2), node(1), node(3), node(4)]
    );
}

#[test]
fn failed_link_partitions_graph() {
    let mut graph = TopologyGraph::default();
    add_node(&mut graph, 1, true);
    add_node(&mut graph, 2, false);
    graph
        .add_segment(PanSegment::new(segment(1), node(1)))
        .unwrap();
    let mut failed = active_link(1, 1, 1, 2);
    failed.health = LinkHealth::Failed;
    graph.add_link(failed).unwrap();
    assert!(graph.shortest_path(node(1), node(2)).is_none());
}

#[test]
fn redundant_paths_are_deterministic() {
    let mut graph = TopologyGraph::default();
    for value in 1..=4 {
        add_node(&mut graph, value, value == 1 || value == 2 || value == 3);
    }
    graph
        .add_segment(PanSegment::new(segment(1), node(1)))
        .unwrap();
    graph
        .add_segment(PanSegment::new(segment(2), node(2)))
        .unwrap();
    graph
        .add_segment(PanSegment::new(segment(3), node(3)))
        .unwrap();
    graph.add_link(active_link(1, 1, 1, 2)).unwrap();
    graph.add_link(active_link(2, 1, 1, 3)).unwrap();
    graph.add_link(active_link(3, 2, 2, 4)).unwrap();
    graph.add_link(active_link(4, 3, 3, 4)).unwrap();

    assert_eq!(
        graph.shortest_path(node(1), node(4)).unwrap(),
        vec![node(1), node(2), node(4)]
    );
}

#[test]
fn node_removal_removes_incident_links() {
    let mut graph = TopologyGraph::default();
    add_node(&mut graph, 1, true);
    add_node(&mut graph, 2, false);
    graph
        .add_segment(PanSegment::new(segment(1), node(1)))
        .unwrap();
    graph.add_link(active_link(1, 1, 1, 2)).unwrap();
    graph.remove_node(node(2));
    assert_eq!(graph.links().iter().count(), 0);
}
