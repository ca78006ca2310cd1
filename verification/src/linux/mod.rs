pub mod handles;
pub mod capability_report;
pub mod forwarding;
pub mod membership_store;
pub mod store_round_trip;
pub mod stores;
pub mod kernel_address;
pub mod address_saga;
pub mod network_discovery;
pub mod bluez;
pub mod pan;
pub mod networkmanager;
pub mod ipv4_observation;
pub mod nm_settings;
