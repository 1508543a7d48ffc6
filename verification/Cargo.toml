[package]
name = "gamefi_ledger"
version = "0.1.0"
edition = "2021"
publish = false

[dependencies]
rand = "0.8"
serde = { version = "1", features = ["derive"] }
serde_json = "1"
hex = "0.4"
tokio = { version = "1", features = ["sync", "rt", "macros"] }
libp2p = { version = "0.53", features = ["tcp", "noise", "yamux", "gossipsub", "ping", "tokio", "macros"] }
libp2p-identity = { version = "0.2", features = ["ed25519", "peerid", "rand"] }
ed25519-dalek = { version = "2", features = ["rand_core"] }
