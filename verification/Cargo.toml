[package]
name = "jts_core"
version = "0.1.0"
edition = "2021"
publish = false

[dependencies]
axum = { version = "0.6", features = ["ws"] }
bytes = "1"
chrono = "0.4"
rand = "0.8"
tokio = { version = "1", features = ["full"] }
