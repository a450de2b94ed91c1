[package]
name = "rust_hw"
version = "0.1.0"
edition = "2021"
publish = false

[dependencies]
url = "2"
futures = "0.3"
scoped-tls = "1"
async-channel = "2"
colored = "2"
reqwest = { version = "0.12", default-features = false, features = ["blocking"] }
