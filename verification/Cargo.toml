[package]
name = "metri_engine"
version = "0.1.0"
edition = "2021"
publish = false

[dependencies]
base64 = "=0.22.1"
hmac = "=0.12.1"
sha2 = "=0.10.9"
chrono = "=0.4.45"
uuid = { version = "=1.29.0", features = ["v4"] }
serde_json = "=1.0.154"
regex = "=1.13.1"
ulid = "=1.2.1"
serde = { version = "=1.0.229", features = ["derive"] }
rmp-serde = "1"
