[package]
name = "surimi"
version = "0.1.0"
edition = "2021"
publish = false

[dependencies]
async-std = "=1.13.2"
async-tungstenite = { version = "=0.35.0", features = ["async-std-runtime"] }
futures-util = "=0.3.34"
serde_json = "=1.0.154"
