[package]
name = "cargosos_bitcoin"
version = "0.1.0"
edition = "2021"
publish = false

[dependencies]
bitcoin_hashes = "*"
bs58 = "*"
secp256k1 = "*"
chrono = "*"
