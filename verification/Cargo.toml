[package]
name = "greentic_state"
version = "0.1.0"
edition = "2021"
publish = false

[dependencies]
dashmap = "*"
greentic-types = "*"
parking_lot = "*"
redis = "*"
serde = { version = "1", features = ["derive"] }
serde_json = "1"
time = "*"
tracing = "*"
