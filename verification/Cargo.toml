[package]
name = "geese"
version = "0.1.0"
edition = "2021"
publish = false

[dependencies]
serde = { version = "1", features = ["derive"] }
serde_json = "1"
cgmath = "0.18"
tokio = { version = "1", features = ["sync", "net", "rt-multi-thread", "macros", "time"] }
axum = "*"
