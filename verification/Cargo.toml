[package]
name = "poseidon_bn128"
version = "0.1.0"
edition = "2021"
publish = false

[dependencies]
num = "=0.4.3"
serde = { version = "=1.0.229", features = ["derive"] }
serde_json = "1"
