[package]
name = "blueroute"
version = "0.1.0"
edition = "2021"
publish = false

[dependencies]
rustix = { version = "1", features = ["net"] }
zbus = "5"
futures-lite = "2"
async-io = "2"
serde = { version = "1", features = ["derive"] }
serde_json = "1"
