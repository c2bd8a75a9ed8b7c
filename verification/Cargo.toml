[package]
name = "aeternity_signer"
version = "0.1.0"
edition = "2021"
publish = false

[dependencies]
base64 = "*"
blake2b_simd = "*"
bs58 = "*"
include_gif = "*"
ledger_device_sdk = "*"
primitive-types = "*"
sha2 = "*"
