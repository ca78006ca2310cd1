use blueroute::linux::bluez::{diff_adapter_snapshots, is_adapter_object_path};
use blueroute::linux::capability_report::{
    classify_support, effective_peer_ceiling, SupportInputs, SystemSupportLevel,
};
use blueroute::linux::kernel_address::{parse_netlink_ack, ByteOrder};
use blueroute::linux::network_discovery::{
    decode_advertisement, encode_advertisement, is_device_object_path_for_adapter,
    BLUEROUTE_ADVERTISEMENT_PAYLOAD_LEN, BLUEROUTE_ADVERTISEMENT_VERSION,
};
use blueroute::linux::networkmanager::{
    profile_uuid, queue_device_changes, validate_interface_name, KIND_BRIDGE, KIND_INTERFACE,
};
use blueroute::linux::pan::{connect_method_error, panu_attachment, validate_panu_attachment};
use blueroute::{
    AdapterHandle, BluetoothAdapter, BluetoothAdapterEvent, CapabilitySource, ErrorKind,
    NetworkBackend, NetworkDevice, NetworkDeviceHandle, NetworkId, NetworkInterfaceHandle,
    NetworkStateEvent, NodeCapabilities, PanAttachment, PanRole, PeerHandle, RuntimeCapabilities,
    Sourced,
};

fn adapter(path: &str, powered: bool) -> BluetoothAdapter {
    BluetoothAdapter {
        handle: AdapterHandle::new(path).unwrap(),
        powered,
    }
}

#[test]
fn adapter_object_paths_exclude_nested_device_objects() {
    assert!(is_adapter_object_path("/org/bluez/hci0"));
    assert!(is_adapter_object_path("/org/bluez/controller-name"));
    assert!(!is_adapter_object_path(
        "/org/bluez/hci0/dev_AA_BB_CC_DD_EE_FF"
    ));
    assert!(!is_adapter_object_path("/org/bluez/"));
    assert!(!is_adapter_object_path("/other/hci0"));
}

#[test]
fn adapter_snapshot_diff_reports_remove_power_and_add_deterministically() {
    let previous = vec![
        adapter("/org/bluez/hci0", false),
        adapter("/org/bluez/hci1", true),
    ];
    let current = vec![
        adapter("/org/bluez/hci0", true),
        adapter("/org/bluez/hci2", false),
    ];

    let events = diff_adapter_snapshots(&previous, &current);
    assert_eq!(
        events,
        vec![
            BluetoothAdapterEvent::PoweredChanged {
                handle: AdapterHandle::new("/org/bluez/hci0").unwrap(),
                powered: true,
            },
            BluetoothAdapterEvent::Removed(AdapterHandle::new("/org/bluez/hci1").unwrap()),
            BluetoothAdapterEvent::Added(adapter("/org/bluez/hci2", false)),
        ]
    );
}

#[test]
fn unchanged_snapshot_produces_no_events() {
    let snapshot = vec![adapter("/org/bluez/hci0", true)];
    assert!(diff_adapter_snapshots(&snapshot, &snapshot).is_empty());
}

fn support_inputs() -> SupportInputs {
    SupportInputs {
        bluez_available: true,
        network_backend_available: true,
        adapter_present: true,
        powered_adapter: true,
        bnep_available: true,
        panu_available: true,
        nap_available: Some(true),
        forwarding_available: true,
    }
}

#[test]
fn classification_distinguishes_supported_modes() {
    assert_eq!(
        classify_support(support_inputs()),
        SystemSupportLevel::FullySupported
    );
    assert_eq!(
        classify_support(SupportInputs {
            nap_available: Some(false),
            ..support_inputs()
        }),
        SystemSupportLevel::ClientOnly
    );
    assert_eq!(
        classify_support(SupportInputs {
            powered_adapter: false,
            panu_available: false,
            nap_available: Some(false),
            ..support_inputs()
        }),
        SystemSupportLevel::Degraded
    );
    assert_eq!(
        classify_support(SupportInputs {
            bluez_available: false,
            ..support_inputs()
        }),
        SystemSupportLevel::Unsupported
    );
}

#[test]
fn configured_peer_ceiling_is_capped_by_conservative_runtime_limit() {
    assert_eq!(effective_peer_ceiling(None), 4);
    assert_eq!(effective_peer_ceiling(Some(2)), 2);
    assert_eq!(effective_peer_ceiling(Some(4)), 4);
    assert_eq!(effective_peer_ceiling(Some(9)), 4);
}

fn host_order() -> ByteOrder {
    if u16::from_ne_bytes([1, 0]) == 1 {
        ByteOrder::Little
    } else {
        ByteOrder::Big
    }
}

#[test]
fn successful_and_failed_netlink_acknowledgements_are_distinct() {
    assert!(parse_netlink_ack(host_order(), &0_i32.to_ne_bytes()).is_ok());
    let error = parse_netlink_ack(host_order(), &(-17_i32).to_ne_bytes()).unwrap_err();
    assert_eq!(error.kind(), ErrorKind::InvalidState);
}

#[test]
fn runtime_capabilities_can_describe_non_networkmanager_backend() {
    let capabilities = RuntimeCapabilities {
        bluez_available: true,
        network_backend: Some(NetworkBackend::SystemdNetworkd),
        node: NodeCapabilities {
            panu: Some(Sourced::new(true, CapabilitySource::Measured)),
            ..NodeCapabilities::default()
        },
    };
    assert_eq!(
        capabilities.network_backend,
        Some(NetworkBackend::SystemdNetworkd)
    );
}

#[test]
fn advertisement_round_trips_full_network_identity() {
    let network = NetworkId::from_bytes([0x5a; 16]);
    let payload = encode_advertisement(network);
    assert_eq!(payload.len(), BLUEROUTE_ADVERTISEMENT_PAYLOAD_LEN);
    assert_eq!(decode_advertisement(&payload), Some(network));
}

#[test]
fn malformed_or_non_nap_advertisements_are_not_candidates() {
    let network = NetworkId::from_bytes([0x31; 16]);
    let mut payload = encode_advertisement(network);
    payload[0] = b'X';
    assert_eq!(decode_advertisement(&payload), None);

    let mut payload = encode_advertisement(network);
    payload[2] = BLUEROUTE_ADVERTISEMENT_VERSION + 1;
    assert_eq!(decode_advertisement(&payload), None);

    let mut payload = encode_advertisement(network);
    payload[3] = 0;
    assert_eq!(decode_advertisement(&payload), None);
    assert_eq!(decode_advertisement(&payload[..19]), None);
}

#[test]
fn device_paths_are_scoped_to_one_adapter_and_one_object_level() {
    let hci0 = AdapterHandle::new("/org/bluez/hci0").unwrap();
    assert!(is_device_object_path_for_adapter(
        "/org/bluez/hci0/dev_AA_BB_CC_DD_EE_FF",
        &hci0
    ));
    assert!(!is_device_object_path_for_adapter(
        "/org/bluez/hci1/dev_AA_BB_CC_DD_EE_FF",
        &hci0
    ));
    assert!(!is_device_object_path_for_adapter(
        "/org/bluez/hci0/dev_AA_BB_CC_DD_EE_FF/service0001",
        &hci0
    ));
}

fn network(value: u8) -> NetworkId {
    NetworkId::from_bytes([value; 16])
}

fn interface(value: &str) -> NetworkInterfaceHandle {
    NetworkInterfaceHandle::new(value).unwrap()
}

#[test]
fn generated_profile_uuid_is_stable_scoped_and_rfc4122_shaped() {
    let owner = network(7);
    let first = profile_uuid(owner, &interface("br-blue0"), KIND_BRIDGE);
    assert_eq!(
        first,
        profile_uuid(owner, &interface("br-blue0"), KIND_BRIDGE)
    );
    assert_ne!(
        first,
        profile_uuid(owner, &interface("br-blue1"), KIND_BRIDGE)
    );
    assert_ne!(
        first,
        profile_uuid(owner, &interface("br-blue0"), KIND_INTERFACE)
    );
    assert_eq!(first.len(), 36);
    assert_eq!(&first[14..15], "5");
    assert!(matches!(&first[19..20], "8" | "9" | "a" | "b"));
}

#[test]
fn event_diff_reports_removal_change_then_addition_deterministically() {
    let handle_a = NetworkDeviceHandle::new("/a").unwrap();
    let handle_b = NetworkDeviceHandle::new("/b").unwrap();
    let handle_c = NetworkDeviceHandle::new("/c").unwrap();
    let device = |handle: NetworkDeviceHandle, state: u32| NetworkDevice {
        handle,
        interface: interface("eth0"),
        managed: true,
        device_type: 1,
        state,
        active_connection: None,
    };
    let previous = vec![
        device(handle_a.clone(), 10),
        device(handle_b.clone(), 20),
    ];
    let current = vec![
        device(handle_b.clone(), 30),
        device(handle_c.clone(), 40),
    ];
    let mut pending = Vec::new();
    queue_device_changes(&previous, &current, &mut pending).unwrap();
    let mut pending = pending.into_iter();
    assert!(matches!(
        pending.next(),
        Some(NetworkStateEvent::DeviceRemoved(handle)) if handle == handle_a
    ));
    assert!(matches!(
        pending.next(),
        Some(NetworkStateEvent::DeviceChanged(device)) if device.handle == handle_b
    ));
    assert!(matches!(
        pending.next(),
        Some(NetworkStateEvent::DeviceAdded(device)) if device.handle == handle_c
    ));
}

#[test]
fn overlong_interface_name_is_rejected_before_dbus() {
    let error = validate_interface_name(&interface("abcdefghijklmnop")).unwrap_err();
    assert_eq!(error.kind(), ErrorKind::InvalidInput);
}

fn peer() -> PeerHandle {
    PeerHandle::new("/org/bluez/hci0/dev_00_11_22_33_44_55").unwrap()
}

#[test]
fn panu_attachment_preserves_peer_and_interface() {
    let attachment = panu_attachment(&peer(), "bnep7").unwrap();
    assert_eq!(attachment.role, PanRole::Panu);
    assert_eq!(attachment.interface.as_str(), "bnep7");
    assert_eq!(attachment.peer, Some(peer()));
}

#[test]
fn empty_interface_is_protocol_error() {
    assert_eq!(
        panu_attachment(&peer(), "   ").unwrap_err().kind(),
        ErrorKind::ProtocolError
    );
}

#[test]
fn panu_subscription_rejects_non_panu_attachment() {
    let attachment = PanAttachment {
        role: PanRole::Nap,
        interface: NetworkInterfaceHandle::new("bnep0").unwrap(),
        peer: None,
    };
    assert_eq!(
        validate_panu_attachment(&attachment).unwrap_err().kind(),
        ErrorKind::InvalidInput
    );
}

#[test]
fn connection_attempt_failure_maps_to_pan_failure() {
    assert_eq!(
        connect_method_error("org.bluez.Error.ConnectionAttemptFailed"),
        (
            ErrorKind::PanFailure,
            "Bluetooth PAN connection attempt failed"
        )
    );
}

#[test]
fn unavailable_network_profile_maps_to_capability_error() {
    assert_eq!(
        connect_method_error("org.freedesktop.DBus.Error.UnknownMethod").0,
        ErrorKind::CapabilityUnavailable
    );
}
