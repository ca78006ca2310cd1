pub mod error;
pub mod hex;
pub mod id;
pub mod capability;
pub mod health;
pub mod route;
pub mod bits;
pub mod config;
pub mod addressing;
pub mod table;
pub mod membership;
pub mod topology;
pub mod walks;
pub mod secret;
