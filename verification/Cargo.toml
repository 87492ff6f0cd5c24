[package]
name = "temper_desktop"
version = "0.1.0"
edition = "2021"
publish = false

[dependencies]
agent-client-protocol = { version = "=5.0.0", features = ["process"] }
serde = { version = "=1.0.229", features = ["derive"] }
serde_json = "=1.0.154"
tokio = { version = "=1.54.1", features = ["sync", "time", "rt", "macros"] }
uuid = "=1.29.1"
