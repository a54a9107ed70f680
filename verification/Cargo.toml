[package]
name = "anchor_lang"
version = "2.0.0"
edition = "2021"
publish = false

[dependencies]
pinocchio = "*"
pinocchio-system = "*"
solana-program-error = "*"
solana-address = { version = "*", features = ["curve25519"] }
