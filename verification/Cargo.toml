[package]
name = "sci4x"
version = "0.1.0"
edition = "2021"
publish = false

[dependencies]
tokio = { version = "*", features = ["sync", "rt-multi-thread", "macros", "time", "net", "signal"] }
chrono = "*"
axum = "*"
sqlx = { version = "*", features = ["runtime-tokio", "sqlite"] }
serde = { version = "*", features = ["derive"] }
serde_json = "*"
anyhow = "*"
async-stream = "*"
futures-util = "*"
tokio-stream = "*"
tracing = "*"
tracing-subscriber = "*"
