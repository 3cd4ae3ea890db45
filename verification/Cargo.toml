[package]
name = "fund_forwarding"
version = "0.1.0"
edition = "2021"
publish = false

[dependencies]
primitive-types = { version = "0.9", default-features = false }
secret-cosmwasm-std = "0.10"
secret-cosmwasm-storage = "0.10"
secret-toolkit = "0.2"
serde = { version = "1.0", default-features = false, features = ["derive"] }
schemars = "0.7"
