[package]
name = "session_wire"
version = "0.1.0"
edition = "2021"
publish = false

[dependencies]
starknet-crypto = "*"
starknet-core = "*"

[dev-dependencies]
cainome-cairo-serde = "*"
