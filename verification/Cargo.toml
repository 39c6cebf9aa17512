[package]
name = "tonk_worker"
version = "0.1.0"
edition = "2021"
publish = false

[dependencies]
serde = { version = "1", features = ["derive"] }
serde_json = "1"
url = "2"
bs58 = "0.5"
base58 = "0.2"
blake3 = "1"
hex = "0.4"
rand = "0.8"
