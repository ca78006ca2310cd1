use std::cmp::Ordering;

use blueroute::protocol::{DBUS_INTERFACE_NAME, DBUS_OBJECT_PATH, DBUS_SERVICE_NAME};
use blueroute::{ApiCompatibility, ApiVersion, Command, DisplayName};

#[test]
fn exact_api_versions_are_compatible() {
    assert_eq!(
        ApiVersion::current().compatibility_with_server(ApiVersion::current()),
        ApiCompatibility::Exact
    );
}

#[test]
fn older_minor_client_is_compatible_with_newer_server() {
    let client = ApiVersion::new(1, 2);
    let server = ApiVersion::new(1, 5);
    assert_eq!(
        client.compatibility_with_server(server),
        ApiCompatibility::Compatible
    );
    assert!(client.is_compatible_with_server(server));
}

#[test]
fn newer_minor_client_is_rejected_by_older_server() {
    let client = ApiVersion::new(1, 5);
    let server = ApiVersion::new(1, 2);
    assert_eq!(
        client.compatibility_with_server(server),
        ApiCompatibility::Incompatible
    );
}

#[test]
fn different_major_versions_are_incompatible() {
    assert!(!ApiVersion::new(1, 9).is_compatible_with_server(ApiVersion::new(2, 0)));
}

#[test]
fn display_is_stable() {
    assert_eq!(ApiVersion::new(12, 34).to_string(), "12.34");
}

#[test]
fn ordering_is_lexicographic_by_major_then_minor() {
    assert_eq!(
        ApiVersion::new(1, 9).cmp(&ApiVersion::new(2, 0)),
        Ordering::Less
    );
}

#[test]
fn dbus_names_are_versioned() {
    assert!(DBUS_SERVICE_NAME.ends_with("Service1"));
    assert!(DBUS_OBJECT_PATH.ends_with("Service1"));
    assert!(DBUS_INTERFACE_NAME.ends_with("Service1"));
}

#[test]
fn commands_keep_friendly_names_separate_from_ids() {
    let name = DisplayName::new("Lab network").unwrap();
    let command = Command::CreateNetwork { name: name.clone() };
    assert_eq!(command, Command::CreateNetwork { name });
}

#[test]
fn internet_sharing_command_is_reserved_in_protocol() {
    assert_eq!(
        Command::SetInternetSharing { enabled: false },
        Command::SetInternetSharing { enabled: false }
    );
}
