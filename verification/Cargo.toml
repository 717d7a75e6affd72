[package]
name = "caminus"
version = "0.1.0"
edition = "2021"
publish = false

[dependencies]
chrono = { version = "0.4", features = ["serde"] }
serde = { version = "1", features = ["derive"] }
serde_json = "1"
simd-json = "*"
thiserror = "*"
tokio = { version = "1", features = ["sync"] }
