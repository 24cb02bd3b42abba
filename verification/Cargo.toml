[package]
name = "substrate_client"
version = "0.1.0"
edition = "2021"
publish = false

[dependencies]
blake2-rfc = "0.2"
ed25519-dalek = "2"
futures = "0.1"
parking_lot = "0.12"
serde = { version = "1", features = ["derive"] }
