[package]
name = "sign_segwit_v0"
version = "0.1.0"
edition = "2021"
publish = false

[dependencies]
anyhow = "1"
bitcoin = "0.30"
bitcoincore-rpc = "0.17"
hex = "0.4"
rand = "0.8"
secp256k1 = { version = "0.27", features = ["rand-std"] }
