[package]
name = "amulet"
version = "0.1.0"
edition = "2021"
publish = false

[dependencies]
primitive-types = { version = "=0.12.2", default-features = false }
serde = { version = "=1.0.229", features = ["derive"] }
thiserror = "=1.0.69"
cosmwasm-std = { version = "=1.5.11", features = ["stargate"] }
cosmwasm-schema = "=1.5.11"
cw-utils = "=1.0.3"
prost = "=0.12.6"
cosmos-sdk-proto = { version = "=0.21.1", default-features = false }
