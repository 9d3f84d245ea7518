[package]
name = "shade_coordinator"
version = "0.1.0"
edition = "2021"
publish = false

[dependencies]
hex = "0.4"
sha2 = "0.10"
serde_json = "1"
near-sdk = { version = "5", features = ["unit-testing"] }
