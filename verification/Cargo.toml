[package]
name = "cargobase"
version = "0.1.0"
edition = "2021"
publish = false

[dependencies]
ansi_term = "0.12"
serde = { version = "1", features = ["derive"] }
serde_json = "1"
serde-reflection = "*"
tempfile = "3"
thiserror = "1"
tokio = { version = "1", features = ["fs", "rt"] }
tracing = "0.1"
tracing-subscriber = "0.3"
uuid = { version = "1", features = ["v4"] }
