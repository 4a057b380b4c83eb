[package]
name = "stellar_merch_shop"
version = "0.1.0"
edition = "2021"
publish = false

[dependencies]
soroban-sdk = { version = "=23.5.3", features = ["testutils"] }
soroban-env-host = "=23.0.1"
subtle = "=2.5.0"

[dev-dependencies]
k256 = "=0.13.4"
