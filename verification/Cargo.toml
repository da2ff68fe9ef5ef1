[package]
name = "subscription_vault"
version = "0.1.0"
edition = "2021"
publish = false

[dependencies]
ed25519-dalek = { version = "=2.2.0", features = ["rand_core"] }
rand = "=0.8.8"
soroban-sdk = { version = "=29.0.1", features = ["testutils"] }

[dev-dependencies]
proptest = "=1.12.0"
