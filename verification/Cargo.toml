[package]
name = "rsdlp"
version = "0.1.0"
edition = "2021"
publish = false

[dependencies]
axum = "0.8"
bcrypt = "*"
grammers-client = "0.8"
grammers-mtsender = "0.8"
grammers-session = "0.8"
libc = "0.2"
serde = { version = "1", features = ["derive"] }
serde_json = "1"
sqlite = "*"
tokio = { version = "1", features = ["full"] }
tokio-util = { version = "0.7", features = ["io"] }
tracing = "0.1"
tracing-subscriber = { version = "0.3", features = ["env-filter"] }
