[package]
name = "odyssey"
version = "0.1.0"
edition = "2021"
publish = false

[dependencies]
serde_json = "1"
serde = { version = "1", features = ["derive"] }
tokio = { version = "1", features = ["full"] }
tokio-stream = "0.1"
futures-util = "0.3"
futures-core = "0.3"
axum = "0.7"
bitflags = "2"
cordis = "*"
