[package]
name = "peer_discovery"
version = "0.1.0"
edition = "2021"
publish = false

[dependencies]
ed25519-consensus = "=2.1.0"
fastcrypto = "=0.1.11"
futures = "=0.3.34"
multiaddr = "=0.19.1"
rand = "=0.8.8"
serde = { version = "=1.0.229", features = ["derive"] }
tokio = { version = "=1.54.1", features = ["sync", "time", "rt"] }
