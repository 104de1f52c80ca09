[package]
name = "account_webhook"
version = "0.1.0"
edition = "2021"
publish = false

[dependencies]
axum = "*"
tokio = { version = "*", features = ["full"] }
tracing = "*"

[dev-dependencies]
serde_json = "*"
