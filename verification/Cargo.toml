[package]
name = "simpiwallet"
version = "0.1.0"
edition = "2021"
publish = false

[dependencies]
elements = "=0.27.0"
bitcoin = "=0.32.102"
simplicity-lang = { version = "=0.9.0", features = ["human_encoding"] }
base64 = "=0.23.1"
serde = { version = "=1.0.229", features = ["derive"] }
serde_json = "=1.0.151"
jsonrpc = "=0.21.0"
lexopt = "=0.3.2"
