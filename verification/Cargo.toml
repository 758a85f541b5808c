[package]
name = "ip_manager"
version = "0.1.0"
edition = "2021"
publish = false

[dependencies]
colored = "2"
prettytable-rs = { version = "0.10", default-features = false }
serde = { version = "1", features = ["derive"] }
serde_json = "1"

[dev-dependencies]
ipnetwork = { version = "0.20", default-features = false }
