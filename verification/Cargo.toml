[package]
name = "secp256k1_zkp"
version = "0.1.0"
edition = "2021"
publish = false

[dependencies]
secp256k1 = "*"
secp256k1-zkp-sys = "*"
serde = "1"
rand = "0.9"
