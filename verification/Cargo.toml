[package]
name = "tx_builder"
version = "0.1.0"
edition = "2021"
publish = false

[dependencies]
solana-sdk = "2.2"
base64 = "0.21"
sha2 = "0.10"
dashmap = "6"
serde = { version = "1", features = ["derive"] }
serde_json = "1"
thiserror = "1"
tokio = { version = "1", features = ["sync", "time", "rt", "macros"] }
futures = "0.3"
anyhow = "1"
