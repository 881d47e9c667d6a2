[package]
name = "nft_engine"
version = "0.1.0"
edition = "2021"
publish = false

[dependencies]
ed25519-dalek = "=1.0.1"

[dev-dependencies]
rand = "=0.7.3"
