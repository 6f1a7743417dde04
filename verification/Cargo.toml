[package]
name = "cw_verifier_middleware"
version = "0.1.0"
edition = "2021"
publish = false

[dependencies]
sha2 = "0.10"
ripemd = "0.1"
bech32 = "0.9"
cosmwasm-crypto = "1.5"
cosmwasm-std = "1.5"
cw-utils = "1.0"

[dev-dependencies]
secp256k1 = { version = "0.28", features = ["rand-std"] }
