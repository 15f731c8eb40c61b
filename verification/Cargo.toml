[package]
name = "owonero"
version = "0.1.0"
edition = "2021"
publish = false

[dependencies]
sha3 = "0.10"
ring = "0.17"

[dev-dependencies]
hex = "0.4"
serde_json = "1"
