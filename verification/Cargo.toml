[package]
name = "miogenes"
version = "0.1.0"
edition = "2021"
publish = false

[dependencies]
path-absolutize = "=3.1.1"
base64 = "=0.21.7"
sha2 = "=0.10.9"
uuid = { version = "=1.29.0", features = ["v4"] }
serde = { version = "=1.0.229", features = ["derive"] }
serde_json = "=1.0.154"
anyhow = "=1.0.104"
thiserror = "=1.0.69"
sanitize-filename = "0.5"
