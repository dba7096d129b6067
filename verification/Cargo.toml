[package]
name = "resolver"
version = "0.1.0"
edition = "2021"
publish = false

[dependencies]
cosmwasm-std = "=1.5.11"
cosmwasm-schema = "=1.5.11"
serde-json-wasm = "=0.5.2"
serde = { version = "1", features = ["derive"] }
serde_json = "1"
cw20 = "=1.1.2"
cw721 = "=0.18.0"
cw-storage-plus = "=1.2.0"
