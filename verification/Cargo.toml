[package]
name = "wallet_address"
version = "0.1.0"
edition = "2021"
publish = false

[dependencies]
bs58 = "=0.5.1"
hex = "=0.4.3"
rand = "=0.8.8"
ripemd = "=0.1.3"
secp256k1 = { version = "=0.29.1", features = ["rand"] }
sha2 = "=0.10.9"
