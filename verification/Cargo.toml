[package]
name = "stryke_scylla"
version = "0.1.0"
edition = "2021"
publish = false

[dependencies]
anyhow = "1"
once_cell = "1"
parking_lot = "0.12"
scylla = "1"
serde_json = { version = "1", features = ["preserve_order"] }
tokio = { version = "1", features = ["rt-multi-thread"] }
uuid = "1"
