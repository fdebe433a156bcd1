[package]
name = "plasma"
version = "0.1.0"
edition = "2021"
publish = false

[dependencies]
serde_json = "1"
jsonrpc-core = "18"
hex = "0.4"
