[package]
name = "substrate-subxt"
version = "0.1.0"
edition = "2021"
publish = false

[dependencies]
futures = "=0.1.31"
jsonrpc-core-client = { version = "=14.2.0", default-features = false, features = ["ws"] }
parity-scale-codec = { version = "=3.7.5", features = ["derive"] }
serde = { version = "=1.0.229", features = ["derive"] }
sp-core = { version = "=43.0.0", features = ["serde"] }
sp-crypto-hashing = "=0.1.0"
url = "=1.7.2"
