use blueroute::daemon::authorization::{
    command_authorization, CommandAuthorization, INTERNET_SHARING_ACTION_ID, MODIFY_ACTION_ID,
};
use blueroute::daemon::join_network::combine_rollback;
use blueroute::daemon::service::{network_membership_path, node_identity_path};
use blueroute::daemon::single_star::merge_discovered_networks;
use blueroute::{Command, CoreError, DisplayName, ErrorKind, NetworkId, NetworkSummary, NodeId};

#[test]
fn command_policy_is_explicit_for_every_current_operation() {
    let read_only = [
        Command::GetStatus,
        Command::GetCapabilities,
        Command::ListNetworks,
        Command::ListNodes,
        Command::GetNode {
            node: NodeId::from_bytes([1; 16]),
        },
        Command::GetDiagnostics,
    ];
    for command in read_only {
        assert_eq!(
            command_authorization(&command),
            CommandAuthorization::ReadOnly
        );
    }

    let mutations = [
        Command::CreateNetwork {
            name: DisplayName::new("Authorized network").unwrap(),
        },
        Command::JoinNetwork {
            network: NetworkId::from_bytes([2; 16]),
        },
        Command::LeaveNetwork,
        Command::SetDeviceName {
            name: DisplayName::new("Authorized node").unwrap(),
        },
        Command::StartDiscovery,
        Command::StopDiscovery,
        Command::TrustPeer {
            node: NodeId::from_bytes([3; 16]),
        },
        Command::ForgetPeer {
            node: NodeId::from_bytes([4; 16]),
        },
    ];
    for command in mutations {
        assert_eq!(
            command_authorization(&command),
            CommandAuthorization::PolicyKit(MODIFY_ACTION_ID)
        );
    }

    assert_eq!(
        command_authorization(&Command::SetInternetSharing { enabled: true }),
        CommandAuthorization::PolicyKit(INTERNET_SHARING_ACTION_ID)
    );
}

#[test]
fn rollback_failures_are_never_silently_discarded() {
    let error = combine_rollback(
        CoreError::new(ErrorKind::AuthenticationFailed, "primary failure"),
        Err(CoreError::new(
            ErrorKind::ProtocolError,
            "control cleanup failed",
        )),
        Ok(()),
        Err(CoreError::new(ErrorKind::PanFailure, "PANU cleanup failed")),
    );
    assert_eq!(error.kind(), ErrorKind::AuthenticationFailed);
    assert_eq!(error.message(), "primary failure");
    let diagnostic = error.diagnostic().unwrap();
    assert!(diagnostic.contains("control rollback: control cleanup failed"));
    assert!(diagnostic.contains("PANU rollback: PANU cleanup failed"));
}

#[test]
fn durable_state_paths_are_stable_inside_state_directory() {
    let state_directory = "/tmp/blueroute-state";
    assert_eq!(
        node_identity_path(state_directory),
        "/tmp/blueroute-state/node-id"
    );
    assert_eq!(
        network_membership_path(state_directory),
        "/tmp/blueroute-state/memberships-v1"
    );
}

#[test]
fn discovered_network_merge_preserves_remembered_metadata() {
    let remembered = NetworkId::from_bytes([0x11; 16]);
    let discovered = NetworkId::from_bytes([0x22; 16]);
    let mut networks = vec![NetworkSummary {
        id: remembered,
        name: DisplayName::new("Remembered name").unwrap(),
        member_count: 1,
    }];

    merge_discovered_networks(&mut networks, &vec![remembered, discovered, discovered]).unwrap();

    let find = |id: NetworkId| networks.iter().find(|summary| summary.id == id).unwrap();
    assert_eq!(networks.len(), 2);
    assert_eq!(find(remembered).name.as_str(), "Remembered name");
    assert_eq!(find(discovered).name.as_str(), "BlueRoute 22222222");
    assert_eq!(find(discovered).member_count, 0);
}
