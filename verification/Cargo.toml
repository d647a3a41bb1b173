[package]
name = "dojo_world"
version = "0.1.0"
edition = "2021"
publish = false

[dependencies]
starknet-core = "*"
serde = { version = "*", features = ["derive"] }
serde_json = "*"
serde_with = "*"
thiserror = "*"
