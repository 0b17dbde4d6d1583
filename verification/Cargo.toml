[package]
name = "accounts_bench"
version = "0.1.0"
edition = "2021"
publish = false

[dependencies]
anyhow = "=1.0.104"
nix = { version = "=0.29.0", features = ["process", "signal"] }
rand = "=0.8.8"
solana-accounts-db = "=1.18.26"
solana-sdk = "=1.18.26"
