[package]
name = "solana_toolbox"
version = "0.1.0"
edition = "2021"
publish = false

[dependencies]
anyhow = "1"
async-trait = "0.1"
base64 = "0.22"
bincode = "1"
clap = { version = "4", features = ["derive"] }
serde_json = "1"
solana-sdk = "2.1"
spl-token = "7"
