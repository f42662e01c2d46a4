[package]
name = "gamefi_satellite"
version = "0.2.0"
edition = "2021"
publish = false

[dependencies]
cosmwasm-schema = "=3.0.10"
cosmwasm-std = { version = "=3.0.10", features = ["stargate"] }
cw2 = "=3.0.0"
cw721 = "=0.22.0"
cw-storage-plus = "=3.0.1"
schemars = "=1.2.2"
serde = "=1.0.229"
