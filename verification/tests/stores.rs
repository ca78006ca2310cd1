use blueroute::linux::membership_store::{
    detect_format_version, migrate_to_current, migrate_v1_to_v2, parse_registry,
    serialize_registry,
};
use blueroute::linux::stores::{format_identity, parse_identity, SecretFileStore};
use blueroute::{
    DisplayName, ErrorKind, MembershipRegistry, MembershipState, NetworkId, NetworkMembership,
    NodeId,
};

fn network(value: u8, name: &str, member: bool) -> NetworkMembership {
    let mut membership =
        NetworkMembership::new(NetworkId::from_bytes([value; 16]), DisplayName::new(name).unwrap());
    if member {
        membership.set_state(MembershipState::Member);
    }
    membership
}

fn peer(value: u8) -> NodeId {
    NodeId::from_bytes([value; 16])
}

/// Saves and loads a registry the way the daemon's file store does, without the file.
fn save_then_load(registry: &MembershipRegistry) -> MembershipRegistry {
    let text = serialize_registry(registry).unwrap();
    let current = migrate_to_current(&text).unwrap();
    assert!(!current.migrated);
    parse_registry(&current.serialized).unwrap()
}

#[test]
fn missing_state_file_loads_as_empty_registry() {
    // A missing file is read as the empty registry; its saved form reads back empty too.
    let empty = MembershipRegistry::default();
    assert!(save_then_load(&empty).is_empty());
    assert_eq!(serialize_registry(&empty).unwrap(), "BLUEROUTE_MEMBERSHIP_V2\n");
}

#[test]
fn restart_preserves_known_network_and_peer_membership_and_trust() {
    let network_id = NetworkId::from_bytes([3; 16]);
    let member_peer = peer(4);
    let trusted_nonmember = peer(5);

    let mut membership = network(3, "Café Lab", true);
    membership.set_peer_member(member_peer, true);
    membership.trust_peer(member_peer);
    membership.remember_peer(trusted_nonmember);
    membership.trust_peer(trusted_nonmember);

    let mut registry = MembershipRegistry::default();
    registry.remember_network(membership);

    let after_restart = save_then_load(&registry);
    let restored = after_restart.network(&network_id).unwrap();
    assert_eq!(restored.name().as_str(), "Café Lab");
    assert_eq!(restored.membership_state(), MembershipState::Member);
    assert!(restored.is_peer_member(&member_peer));
    assert!(restored.is_peer_trusted(&member_peer));
    assert!(!restored.is_peer_member(&trusted_nonmember));
    assert!(restored.is_peer_trusted(&trusted_nonmember));
}

#[test]
fn forget_peer_and_forget_network_survive_restart() {
    let kept_network = NetworkId::from_bytes([1; 16]);
    let forgotten_network = NetworkId::from_bytes([2; 16]);
    let forgotten_peer = peer(7);

    let mut kept = network(1, "Kept", true);
    kept.set_peer_member(forgotten_peer, true);
    kept.trust_peer(forgotten_peer);
    let mut registry = MembershipRegistry::default();
    registry.remember_network(kept);
    registry.remember_network(network(2, "Forgotten", false));

    let mut restored = save_then_load(&registry);
    restored
        .network_mut(&kept_network)
        .unwrap()
        .forget_peer(&forgotten_peer);
    restored.forget_network(&forgotten_network);

    let after_restart = save_then_load(&restored);
    assert!(after_restart.network(&forgotten_network).is_none());
    assert!(!after_restart
        .network(&kept_network)
        .unwrap()
        .is_peer_known(&forgotten_peer));
}

#[test]
fn serialization_is_deterministic_across_insertion_order() {
    let mut low = network(1, "Low", true);
    low.trust_peer(peer(9));
    low.trust_peer(peer(2));
    let high = network(8, "High", false);

    let mut first = MembershipRegistry::default();
    first.remember_network(high.clone());
    first.remember_network(low.clone());
    let mut second = MembershipRegistry::default();
    second.remember_network(low);
    second.remember_network(high);

    assert_eq!(
        serialize_registry(&first).unwrap(),
        serialize_registry(&second).unwrap()
    );
}

#[test]
fn transient_membership_state_is_not_persisted() {
    let mut membership = network(1, "Joining", false);
    membership.set_state(MembershipState::Joining);
    let mut registry = MembershipRegistry::default();
    registry.remember_network(membership);

    let error = serialize_registry(&registry).unwrap_err();
    assert_eq!(error.kind(), ErrorKind::PersistenceError);
}

#[test]
fn synthetic_v1_state_migrates_to_current_without_losing_membership() {
    let network_id = NetworkId::from_bytes([3; 16]);
    let member_peer = peer(4);
    let trusted_nonmember = peer(5);
    let legacy = format!(
        "BLUEROUTE_MEMBERSHIP_V1\nnetwork\t{}\tmember\t4c6567616379204c6162\npeer\t{}\t{}\t1\t1\npeer\t{}\t{}\t0\t1\n",
        network_id.to_string(),
        network_id.to_string(),
        member_peer.to_string(),
        network_id.to_string(),
        trusted_nonmember.to_string(),
    );

    let current = migrate_to_current(&legacy).unwrap();
    assert!(current.migrated);
    let migrated = parse_registry(&current.serialized).unwrap();
    let restored = migrated.network(&network_id).unwrap();
    assert_eq!(restored.name().as_str(), "Legacy Lab");
    assert_eq!(restored.membership_state(), MembershipState::Member);
    assert!(restored.is_peer_member(&member_peer));
    assert!(restored.is_peer_trusted(&member_peer));
    assert!(!restored.is_peer_member(&trusted_nonmember));
    assert!(restored.is_peer_trusted(&trusted_nonmember));

    let rewritten = serialize_registry(&migrated).unwrap();
    assert!(rewritten.starts_with("BLUEROUTE_MEMBERSHIP_V2\n"));
    assert!(!rewritten.contains("BLUEROUTE_MEMBERSHIP_V1"));
    assert_eq!(
        serialize_registry(&save_then_load(&migrated)).unwrap(),
        rewritten
    );
}

#[test]
fn save_uses_current_membership_schema_version() {
    let mut registry = MembershipRegistry::default();
    registry.remember_network(network(1, "Current", true));

    let text = serialize_registry(&registry).unwrap();
    assert!(text.starts_with("BLUEROUTE_MEMBERSHIP_V2\n"));
    assert_eq!(detect_format_version(&text).unwrap(), 2);
}

#[test]
fn future_schema_is_rejected_without_rewriting_state() {
    let future = "BLUEROUTE_MEMBERSHIP_V999\n";
    let error = migrate_to_current(future).unwrap_err();
    assert_eq!(error.kind(), ErrorKind::PersistenceError);
    assert_eq!(
        error.message(),
        "network membership state uses unsupported future schema version 999; current version is 2"
    );
}

#[test]
fn malformed_state_is_rejected_without_quiet_reset() {
    let error = migrate_to_current("BLUEROUTE_MEMBERSHIP_V1\nnot-a-record\n").unwrap_err();
    assert_eq!(error.kind(), ErrorKind::PersistenceError);
    assert!(migrate_v1_to_v2("BLUEROUTE_MEMBERSHIP_V1\nnot-a-record\n").is_err());
    assert!(parse_registry("BLUEROUTE_MEMBERSHIP_V2\nnot-a-record\n").is_err());
    assert!(detect_format_version("no header").is_err());
}

#[test]
fn first_start_generates_and_persists_identity() {
    let expected = NodeId::from_bytes([7; 16]);
    assert_eq!(format_identity(&expected), format!("{}\n", expected.to_string()));
}

#[test]
fn restart_recovers_existing_identity_instead_of_generating_another() {
    let original = NodeId::from_bytes([1; 16]);
    let text = format_identity(&original);
    assert_eq!(parse_identity(&text).unwrap().as_bytes(), &[1; 16]);
}

#[test]
fn malformed_identity_is_rejected_without_rotation() {
    let error = parse_identity("not-a-node-id\n").unwrap_err();
    assert_eq!(error.kind(), ErrorKind::PersistenceError);
    assert_eq!(error.message(), "stable node identity file is malformed");
}

#[test]
fn secret_names_cannot_escape_the_store_directory() {
    for invalid in ["", ".", "..", "../escape", "nested/key", "/absolute"] {
        let error = SecretFileStore::check_secret_name(invalid).unwrap_err();
        assert_eq!(error.kind(), ErrorKind::InvalidInput);
    }
    for valid in ["network-key", ".hidden", "..."] {
        assert!(SecretFileStore::check_secret_name(valid).is_ok());
    }
}
