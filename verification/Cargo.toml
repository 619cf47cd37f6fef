[package]
name = "sb_on_demand_client"
version = "0.1.0"
edition = "2021"
publish = false

[dependencies]
anyhow_ext = "*"
base64 = "0.22"
bs58 = "0.5"
dashmap = "6"
futures = "0.3"
hex = "0.4"
rust_decimal = "1"
serde = { version = "1", features = ["derive"] }
serde_json = "1"
solana-sdk = "2"
tokio = { version = "1", features = ["sync", "macros", "rt"] }

[dev-dependencies]
bincode = "1.3.3"
borsh = "1"
