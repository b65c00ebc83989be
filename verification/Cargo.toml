[package]
name = "account_crawler"
version = "0.1.0"
edition = "2021"
publish = false

[dependencies]
rayon = "1"
retry = "2"
serde = { version = "1", features = ["derive"] }
serde_json = "1"
solana-sdk = "*"
thiserror = "1"
tokio = { version = "1", features = ["rt-multi-thread", "sync", "macros"] }
