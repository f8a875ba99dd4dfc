[package]
name = "ryu_core"
version = "0.1.0"
edition = "2021"
publish = false

[dependencies]
serde = { version = "=1.0.229", features = ["derive"] }
serde_json = "=1.0.154"
url = "=2.5.8"
chrono = { version = "=0.4.45", default-features = false, features = ["clock", "std"] }
uuid = { version = "1", features = ["v4"] }
base64 = "0.22"
