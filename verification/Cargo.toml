[package]
name = "near_evm"
version = "0.1.0"
edition = "2021"
publish = false

[dependencies]
primitive-types = { version = "*", default-features = false, features = ["std", "rlp"] }
rlp = "*"
sha3 = "*"
keccak-hash = "*"
hex = "*"
borsh = { version = "*", features = ["derive"] }
