[package]
name = "multisig_demo"
version = "0.1.0"
edition = "2021"
publish = false

[dependencies]
solana-program = "=2.3.0"
anyhow = "=1.0.104"
clap = { version = "=3.2.25", features = ["derive"] }
spl-memo = "6"
solana-sdk = "2"
solana-cli-config = "2"

[dev-dependencies]
borsh = "=1.8.1"
