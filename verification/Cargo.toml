[package]
name = "mpvipc"
version = "0.1.0"
edition = "2021"
publish = false

[dependencies]
serde_json = { version = "=1.0.154", features = ["float_roundtrip"] }
interprocess = "=1.2.1"
