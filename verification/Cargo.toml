[package]
name = "liqi"
version = "0.1.0"
edition = "2021"
publish = false

[dependencies]
anyhow = "1"
base64 = "0.22"
bytes = "1"
prost-reflect = { version = "*", features = ["serde"] }
serde_json = "1"
