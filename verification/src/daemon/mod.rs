pub mod authorization;
pub mod join_network;
pub mod single_star;
pub mod peer_trust;
pub mod service;
pub mod star_host;
