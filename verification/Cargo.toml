[package]
name = "wallet_coin"
version = "0.1.0"
edition = "2021"
publish = false

[dependencies]
cosmwasm-std = "=0.16.7"
cosmos_sdk = "=0.3.0"
serde = { version = "=1.0.229", features = ["derive"] }
ts-rs = "=12.0.1"
clap = "=2.34.0"
colored = "=2.2.0"
url = "=2.5.8"
log = "=0.4.34"

[dev-dependencies]
serde_json = "=1.0.154"
