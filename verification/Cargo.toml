[package]
name = "sonotxt"
version = "0.1.0"
edition = "2021"
publish = false

[dependencies]
argon2 = "=0.5.3"
blake2 = "0.10"
bs58 = "0.5"
ed25519-dalek = "=2.2.0"
getrandom = "=0.2.17"
hex = "=0.4.3"
hmac = "=0.12.1"
secrecy = "=0.10.3"
sha2 = "=0.10.9"
