[package]
name = "opencode-plugin"
version = "0.1.0"
edition = "2021"
publish = false

[dependencies]
base64 = "0.22.1"
serde_json = "1.0.154"
