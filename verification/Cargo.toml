[package]
name = "minichain"
version = "0.1.0"
edition = "2021"
publish = false

[dependencies]
chrono = "*"
dotenv = "*"
hex = "*"
rand = "*"
secp256k1 = "*"
sha3 = "*"
