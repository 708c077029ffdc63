[package]
name = "ddc_settlement"
version = "0.1.0"
edition = "2021"
publish = false

[dependencies]
sp-arithmetic = "*"
blake2 = "*"
hex = "*"
polkadot-ckb-merkle-mountain-range = "*"
base64ct = "*"
rand = { version = "0.8", features = ["small_rng"] }
serde = { version = "*", features = ["derive"] }
serde_json = "*"
