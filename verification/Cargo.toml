[package]
name = "boundless"
version = "0.1.0"
edition = "2021"
publish = false

[dependencies]
alloy-primitives = "1"
alloy-chains = "0.2"
rand = "0.9"
serde = { version = "1", features = ["derive"] }
serde_json = "1"
