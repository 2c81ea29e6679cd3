[package]
name = "conversion_queue"
version = "0.1.0"
edition = "2021"
publish = false

[dependencies]
anyhow = "1"
axum = "*"
base64 = "*"
futures = "0.3"
tempfile = "3"
tokio = { version = "1", features = ["full"] }
tokio-util = { version = "*", features = ["io"] }
