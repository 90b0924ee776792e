[package]
name = "p2p_app"
version = "0.1.0"
edition = "2021"
publish = false

[dependencies]
chrono = "0.4"
petname = "2"
ed25519-dalek = "2"
libp2p-identity = { version = "0.2", features = ["ed25519", "peerid", "rand"] }
serde = { version = "1", features = ["derive"] }
serde_json = "1"
