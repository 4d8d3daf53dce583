[package]
name = "drafftink"
version = "0.1.0"
edition = "2021"
publish = false

[dependencies]
uuid = { version = "1", features = ["v4", "serde"] }
base64 = "0.22"
loro = "1"
kurbo = "0.11"
serde = { version = "1", features = ["derive"] }
serde_json = "1"
