use blueroute::linux::networkmanager::{profile_owner, profile_uuid, KIND_BRIDGE, KIND_INTERFACE};
use blueroute::linux::nm_settings::{
    activation_needed, address_prefixes, base_owned_settings, check_bridge_profile,
    check_profile_owner, connection_from_settings, family_addressing, owned_profile_kind,
    with_prefix, without_prefix, AddressEntry, ConnectionSection,
};
use blueroute::{
    ErrorKind, IpAddress, IpPrefix, Ipv4Address, Ipv6Address, NetworkConnectionHandle, NetworkId,
    NetworkInterfaceHandle,
};

fn network(value: u8) -> NetworkId {
    NetworkId::from_bytes([value; 16])
}

fn interface(value: &str) -> NetworkInterfaceHandle {
    NetworkInterfaceHandle::new(value).unwrap()
}

fn entries(prefixes: &[IpPrefix]) -> Option<Result<Vec<AddressEntry>, String>> {
    Some(Ok(prefixes
        .iter()
        .map(|prefix| AddressEntry {
            address: Some(Ok(prefix.address)),
            prefix: Some(Ok(u32::from(prefix.prefix_len))),
        })
        .collect()))
}

/// Reads back what the two families would hold after writing `prefixes`.
fn write_then_read(prefixes: &Vec<IpPrefix>) -> Vec<IpPrefix> {
    let v4 = family_addressing(prefixes, true);
    let v6 = family_addressing(prefixes, false);
    let read = |data: &Option<Vec<IpPrefix>>| match data {
        Some(list) => entries(list),
        None => None,
    };
    address_prefixes(&read(&v4.address_data), &read(&v6.address_data)).unwrap()
}

#[test]
fn owned_profile_has_explicit_metadata_and_no_gateway_side_effects() {
    let owner = network(3);
    let settings = base_owned_settings(owner, &interface("br-blue0"), KIND_BRIDGE).unwrap();
    let found = profile_owner(Some(Ok(settings.user_data.clone()))).unwrap().unwrap();
    assert_eq!(found, owner);
    assert_eq!(settings.ipv4.method, "disabled");
    assert_eq!(settings.ipv6.method, "disabled");
    assert!(settings.ipv4.never_default && settings.ipv6.never_default);
    assert!(!settings.autoconnect);
    assert!(settings.bridge_section);
    assert_eq!(settings.connection_type, "bridge");
    assert_eq!(settings.id, format!("blueroute-bridge-{}", &owner.to_string()[..8]));
    assert_eq!(settings.uuid, profile_uuid(owner, &interface("br-blue0"), KIND_BRIDGE));
}

#[test]
fn interface_profiles_are_generic_and_unknown_kinds_are_refused() {
    let settings = base_owned_settings(network(4), &interface("bnep0"), KIND_INTERFACE).unwrap();
    assert_eq!(settings.connection_type, "generic");
    assert!(!settings.bridge_section);
    let error = base_owned_settings(network(4), &interface("bnep0"), "tunnel").unwrap_err();
    assert_eq!(error.kind(), ErrorKind::Internal);
    assert_eq!(error.diagnostic(), Some("tunnel"));
    assert_eq!(owned_profile_kind(13), KIND_BRIDGE);
    assert_eq!(owned_profile_kind(1), KIND_INTERFACE);
}

#[test]
fn address_mutation_preserves_families_and_is_idempotent() {
    let v4 = IpPrefix::new(IpAddress::V4(Ipv4Address::new(10, 42, 0, 2)), 24).unwrap();
    let v6 = IpPrefix::new(IpAddress::V6(Ipv6Address(1)), 128).unwrap();
    let read = write_then_read(&vec![v6, v4]);
    assert_eq!(read, vec![v4, v6]);
    assert_eq!(write_then_read(&read), vec![v4, v6]);
    assert_eq!(write_then_read(&vec![v6]), vec![v6]);
    let only_v6 = family_addressing(&vec![v6], true);
    assert_eq!(only_v6.method, "disabled");
    assert!(only_v6.address_data.is_none());
}

#[test]
fn address_changes_add_once_and_remove_only_what_is_there() {
    let a = IpPrefix::new(IpAddress::V4(Ipv4Address::new(10, 42, 0, 1)), 24).unwrap();
    let b = IpPrefix::new(IpAddress::V4(Ipv4Address::new(10, 42, 1, 1)), 24).unwrap();
    assert_eq!(with_prefix(&vec![b], a), Some(vec![a, b]));
    assert_eq!(with_prefix(&vec![a, b], a), None);
    assert_eq!(without_prefix(&vec![a, b], a), Some(vec![b]));
    assert_eq!(without_prefix(&vec![b], a), None);
}

#[test]
fn malformed_address_data_fails_closed() {
    let error = address_prefixes(&Some(Err("not a list".to_string())), &None).unwrap_err();
    assert_eq!(error.message(), "NetworkManager returned malformed address-data");
    let missing_prefix = Some(Ok(vec![AddressEntry {
        address: Some(Ok(IpAddress::V4(Ipv4Address::new(10, 0, 0, 1)))),
        prefix: None,
    }]));
    let error = address_prefixes(&missing_prefix, &None).unwrap_err();
    assert_eq!(error.message(), "NetworkManager address-data entry is missing a prefix");
    let too_long = Some(Ok(vec![AddressEntry {
        address: Some(Ok(IpAddress::V4(Ipv4Address::new(10, 0, 0, 1)))),
        prefix: Some(Ok(300)),
    }]));
    let error = address_prefixes(&too_long, &None).unwrap_err();
    assert_eq!(error.message(), "NetworkManager returned an out-of-range IP prefix length");
    let bad_text = Some(Ok(vec![AddressEntry {
        address: Some(Err("invalid IP address syntax".to_string())),
        prefix: Some(Ok(24)),
    }]));
    let error = address_prefixes(&None, &bad_text).unwrap_err();
    assert_eq!(error.message(), "NetworkManager returned an invalid IP address");
}

#[test]
fn connection_profiles_are_read_in_order() {
    let section = ConnectionSection {
        id: Some("blueroute-bridge-07070707".to_string()),
        uuid: Some("u".to_string()),
        connection_type: Some("bridge".to_string()),
        interface_name: Some(Ok("br-blue0".to_string())),
    };
    let connection =
        connection_from_settings("/profiles/1", &Some(section.clone()), Ok(Some(network(7))))
            .unwrap();
    assert_eq!(connection.handle.as_str(), "/profiles/1");
    assert_eq!(connection.interface.unwrap().as_str(), "br-blue0");
    assert_eq!(connection.owner, Some(network(7)));

    let error = connection_from_settings("/profiles/1", &None, Ok(None)).unwrap_err();
    assert_eq!(error.diagnostic(), Some("profile path: /profiles/1"));
    let mut no_type = section.clone();
    no_type.connection_type = None;
    let error = connection_from_settings("/p", &Some(no_type), Ok(None)).unwrap_err();
    assert_eq!(error.diagnostic(), Some("type"));
}

#[test]
fn activation_and_ownership_checks() {
    let bridge = interface("br-blue0");
    assert_eq!(activation_needed(&None, "/p/1", &bridge).unwrap(), true);
    let active = Some(NetworkConnectionHandle::new("/p/1").unwrap());
    assert_eq!(activation_needed(&active, "/p/1", &bridge).unwrap(), false);
    let error = activation_needed(&active, "/p/2", &bridge).unwrap_err();
    assert_eq!(error.diagnostic(), Some("interface=br-blue0"));
    assert!(check_bridge_profile("bridge", &bridge).is_ok());
    assert_eq!(
        check_bridge_profile("generic", &bridge).unwrap_err().diagnostic(),
        Some("interface=br-blue0 profile-type=generic")
    );
    assert!(check_profile_owner(Some(network(1)), network(1), false).is_ok());
    assert_eq!(
        check_profile_owner(None, network(1), true).unwrap_err().message(),
        "refusing to remove a NetworkManager profile not owned by the requested BlueRoute network"
    );
}
