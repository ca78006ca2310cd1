use blueroute::linux::ipv4_observation::{observed_ipv4_prefix, ObservedEntry};
use blueroute::linux::kernel_address::{
    address_change_request, address_dump_request, format_prefixes, parse_ipv4_address, read_u16,
    read_u32, sorted_unique, ByteOrder, Ipv4InterfacePrefix, NLM_F_ACK, NLM_F_CREATE, NLM_F_EXCL,
    NLM_F_REQUEST, RTM_NEWADDR,
};
use blueroute::linux::network_discovery::{discovered_networks, encode_advertisement};
use blueroute::linux::networkmanager::{exactly_one_owned_profile, profile_owner};
use blueroute::linux::pan::{
    properties_change_can_affect_panu_state, CONNECTED_PROPERTY, DEVICE_INTERFACE,
    INTERFACE_PROPERTY, NETWORK_INTERFACE,
};
use blueroute::{
    AdapterHandle, ErrorKind, IpAddress, IpPrefix, Ipv4Address, Ipv6Address, NetworkId,
    NetworkInterfaceHandle,
};

fn host_order() -> ByteOrder {
    if u16::from_ne_bytes([1, 0]) == 1 {
        ByteOrder::Little
    } else {
        ByteOrder::Big
    }
}

fn entry(address: &str, prefix: Option<u32>) -> ObservedEntry {
    let octets: Vec<u8> = address.split('.').map(|part| part.parse().unwrap()).collect();
    ObservedEntry {
        address: Some(Ok(IpAddress::V4(Ipv4Address::new(
            octets[0], octets[1], octets[2], octets[3],
        )))),
        prefix: prefix.map(Ok),
    }
}

fn v4_prefix(a: u8, b: u8, c: u8, d: u8, len: u8) -> IpPrefix {
    IpPrefix::new(IpAddress::V4(Ipv4Address::new(a, b, c, d)), len).unwrap()
}

#[test]
fn observed_ipv4_prefixes_are_normalized_and_allow_route_metadata() {
    let address = entry("10.201.44.99", Some(24));
    assert_eq!(
        observed_ipv4_prefix(&address, "address", "active IPv4 address").unwrap(),
        v4_prefix(10, 201, 44, 0, 24)
    );

    let route = entry("10.202.3.7", Some(24));
    assert_eq!(
        observed_ipv4_prefix(&route, "dest", "active IPv4 route").unwrap(),
        v4_prefix(10, 202, 3, 0, 24)
    );
}

#[test]
fn malformed_observed_ipv4_prefix_fails_closed() {
    let missing_prefix = entry("10.201.44.99", None);
    let error =
        observed_ipv4_prefix(&missing_prefix, "address", "active IPv4 address").unwrap_err();
    assert_eq!(error.kind(), ErrorKind::ProtocolError);
    assert_eq!(
        error.message(),
        "NetworkManager active IPv4 address entry is missing a prefix"
    );

    let ipv6 = ObservedEntry {
        address: Some(Ok(IpAddress::V6(Ipv6Address(1)))),
        prefix: Some(Ok(128)),
    };
    let error = observed_ipv4_prefix(&ipv6, "address", "active IPv4 address").unwrap_err();
    assert_eq!(error.message(), "NetworkManager returned non-IPv4 data in active IPv4 address");

    let too_long = entry("10.0.0.1", Some(33));
    let error = observed_ipv4_prefix(&too_long, "address", "active IPv4 address").unwrap_err();
    assert_eq!(error.kind(), ErrorKind::InvalidInput);

    let missing_address = ObservedEntry { address: None, prefix: Some(Ok(24)) };
    let error = observed_ipv4_prefix(&missing_address, "dest", "active IPv4 route").unwrap_err();
    assert_eq!(error.message(), "NetworkManager returned a malformed string setting");
    assert_eq!(error.diagnostic(), Some("dest"));
}

#[test]
fn address_change_request_encodes_ipv4_and_interface_index() {
    let order = host_order();
    let prefix = Ipv4InterfacePrefix {
        address: Ipv4Address::new(10, 201, 86, 2),
        prefix_len: 24,
    };
    let request = address_change_request(
        order,
        RTM_NEWADDR,
        NLM_F_REQUEST | NLM_F_ACK | NLM_F_CREATE | NLM_F_EXCL,
        42,
        prefix,
    );

    assert_eq!(read_u32(order, &request, 0) as usize, request.len());
    assert_eq!(read_u16(order, &request, 4), RTM_NEWADDR);
    assert_eq!(request[16], 2);
    assert_eq!(request[17], 24);
    assert_eq!(read_u32(order, &request, 20), 42);
    assert!(request.windows(4).any(|value| value == [10, 201, 86, 2]));
}

#[test]
fn address_parser_prefers_local_ipv4_attribute() {
    let order = host_order();
    let prefix = Ipv4InterfacePrefix {
        address: Ipv4Address::new(10, 201, 86, 2),
        prefix_len: 24,
    };
    let request = address_change_request(order, RTM_NEWADDR, 0, 7, prefix);
    let parsed = parse_ipv4_address(order, &request[16..], 7).unwrap();
    assert_eq!(parsed, Some(prefix));
    assert_eq!(parse_ipv4_address(order, &request[16..], 8).unwrap(), None);
}

#[test]
fn truncated_address_message_is_a_protocol_error() {
    let error = parse_ipv4_address(host_order(), &[2, 24, 0], 7).unwrap_err();
    assert_eq!(error.kind(), ErrorKind::ProtocolError);
    assert_eq!(error.diagnostic(), Some("truncated rtnetlink address message"));
}

#[test]
fn dump_request_is_a_header_and_an_empty_address_message() {
    let order = host_order();
    let request = address_dump_request(order);
    assert_eq!(request.len(), 24);
    assert_eq!(read_u32(order, &request, 0), 24);
    assert_eq!(read_u16(order, &request, 6), 0x0301);
    assert_eq!(request[16], 2);
}

#[test]
fn observed_prefixes_are_listed_sorted_and_once() {
    let a = Ipv4InterfacePrefix { address: Ipv4Address::new(10, 0, 0, 2), prefix_len: 24 };
    let b = Ipv4InterfacePrefix { address: Ipv4Address::new(10, 0, 0, 1), prefix_len: 24 };
    let sorted = sorted_unique(&vec![a, b, a]);
    assert_eq!(sorted, vec![b, a]);
    assert_eq!(format_prefixes(&sorted), "10.0.0.1/24,10.0.0.2/24");
    assert_eq!(format_prefixes(&Vec::new()), "<none>");
}

#[test]
fn advertised_identity_is_independent_of_bluetooth_name() {
    let adapter = AdapterHandle::new("/org/bluez/hci0").unwrap();
    let network = NetworkId::from_bytes([0x42; 16]);
    // Only the device path and its BlueRoute payload are read; names play no part.
    let devices = vec![(
        "/org/bluez/hci0/dev_AA_BB_CC_DD_EE_FF".to_string(),
        Some(encode_advertisement(network)),
    )];
    let found = discovered_networks(&adapter, &devices);
    assert_eq!(found.len(), 1);
    assert_eq!(found[0].as_bytes(), &[0x42; 16]);
}

#[test]
fn malformed_manufacturer_data_is_ignored() {
    let adapter = AdapterHandle::new("/org/bluez/hci0").unwrap();
    let network = NetworkId::from_bytes([0x42; 16]);
    let devices = vec![
        ("/org/bluez/hci0/dev_AA_BB_CC_DD_EE_01".to_string(), Some(vec![1, 2, 3])),
        ("/org/bluez/hci0/dev_AA_BB_CC_DD_EE_02".to_string(), None),
        ("/org/bluez/hci1/dev_AA_BB_CC_DD_EE_03".to_string(), Some(encode_advertisement(network))),
    ];
    assert!(discovered_networks(&adapter, &devices).is_empty());
}

#[test]
fn discovered_networks_are_sorted_and_listed_once() {
    let adapter = AdapterHandle::new("/org/bluez/hci0").unwrap();
    let high = NetworkId::from_bytes([9; 16]);
    let low = NetworkId::from_bytes([1; 16]);
    let devices = vec![
        ("/org/bluez/hci0/dev_01".to_string(), Some(encode_advertisement(high))),
        ("/org/bluez/hci0/dev_02".to_string(), Some(encode_advertisement(low))),
        ("/org/bluez/hci0/dev_03".to_string(), Some(encode_advertisement(high))),
    ];
    let found = discovered_networks(&adapter, &devices);
    assert_eq!(found.len(), 2);
    assert_eq!(found[0].as_bytes(), &[1; 16]);
    assert_eq!(found[1].as_bytes(), &[9; 16]);
}

#[test]
fn network_and_device_connected_changes_trigger_state_refresh() {
    let changed = vec![CONNECTED_PROPERTY.to_string()];
    assert!(properties_change_can_affect_panu_state(NETWORK_INTERFACE, &changed, &Vec::new()));
    assert!(properties_change_can_affect_panu_state(DEVICE_INTERFACE, &changed, &Vec::new()));
    let interface = vec![INTERFACE_PROPERTY.to_string()];
    assert!(properties_change_can_affect_panu_state(NETWORK_INTERFACE, &Vec::new(), &interface));
    assert!(!properties_change_can_affect_panu_state(DEVICE_INTERFACE, &Vec::new(), &interface));
}

#[test]
fn unrelated_properties_do_not_trigger_state_refresh() {
    let changed = vec!["Alias".to_string()];
    assert!(!properties_change_can_affect_panu_state(DEVICE_INTERFACE, &changed, &Vec::new()));
}

fn metadata(pairs: &[(&str, &str)]) -> Option<Result<Vec<(String, String)>, String>> {
    Some(Ok(pairs
        .iter()
        .map(|(key, value)| (key.to_string(), value.to_string()))
        .collect()))
}

#[test]
fn foreign_profile_is_not_adopted_as_blueroute_state() {
    assert!(profile_owner(None).unwrap().is_none());
    assert!(profile_owner(metadata(&[])).unwrap().is_none());
}

#[test]
fn owned_profile_names_its_owner() {
    let owner = NetworkId::from_bytes([3; 16]);
    let owner_text = owner.to_string();
    let found = profile_owner(metadata(&[
        ("org.blueroute.owner", owner_text.as_str()),
        ("org.blueroute.schema", "1"),
        ("org.blueroute.kind", "bridge"),
    ]))
    .unwrap()
    .unwrap();
    assert_eq!(found.as_bytes(), &[3; 16]);
}

#[test]
fn malformed_blueroute_owner_fails_closed() {
    let error = profile_owner(metadata(&[
        ("org.blueroute.owner", "not-an-id"),
        ("org.blueroute.schema", "1"),
    ]))
    .unwrap_err();
    assert_eq!(error.kind(), ErrorKind::InvalidState);

    let error = profile_owner(metadata(&[
        ("org.blueroute.owner", "not-an-id"),
        ("org.blueroute.schema", "1"),
        ("org.blueroute.kind", "interface"),
    ]))
    .unwrap_err();
    assert_eq!(error.kind(), ErrorKind::InvalidState);
    assert_eq!(
        error.message(),
        "NetworkManager profile has an invalid BlueRoute owner identifier"
    );
}

#[test]
fn incomplete_or_unknown_blueroute_kind_fails_closed() {
    let owner = NetworkId::from_bytes([9; 16]).to_string();
    let error = profile_owner(metadata(&[
        ("org.blueroute.owner", owner.as_str()),
        ("org.blueroute.schema", "1"),
    ]))
    .unwrap_err();
    assert_eq!(error.kind(), ErrorKind::InvalidState);
    assert_eq!(
        error.message(),
        "NetworkManager profile has incomplete BlueRoute ownership metadata"
    );

    let error = profile_owner(metadata(&[
        ("org.blueroute.owner", owner.as_str()),
        ("org.blueroute.schema", "1"),
        ("org.blueroute.kind", "unknown"),
    ]))
    .unwrap_err();
    assert_eq!(error.kind(), ErrorKind::InvalidState);

    let error = profile_owner(metadata(&[
        ("org.blueroute.owner", owner.as_str()),
        ("org.blueroute.schema", "2"),
        ("org.blueroute.kind", "bridge"),
    ]))
    .unwrap_err();
    assert_eq!(
        error.diagnostic().unwrap(),
        format!("owner={} schema=Some(\"2\")", owner)
    );

    let error = profile_owner(Some(Err("not a dictionary".to_string()))).unwrap_err();
    assert_eq!(error.kind(), ErrorKind::ProtocolError);
}

#[test]
fn duplicate_owned_profiles_fail_closed() {
    let owner = NetworkId::from_bytes([1; 16]);
    let iface = NetworkInterfaceHandle::new("br-blue0").unwrap();
    let error = exactly_one_owned_profile(vec!["/one", "/two"], owner, &iface)
        .err()
        .expect("duplicates must fail closed");
    assert_eq!(error.kind(), ErrorKind::InvalidState);
    assert_eq!(
        error.diagnostic().unwrap(),
        format!("owner={} interface=br-blue0 count=2", owner.to_string())
    );
    assert_eq!(exactly_one_owned_profile(vec!["/one"], owner, &iface).unwrap(), Some("/one"));
    assert_eq!(
        exactly_one_owned_profile(Vec::<&str>::new(), owner, &iface).unwrap(),
        None
    );
}
