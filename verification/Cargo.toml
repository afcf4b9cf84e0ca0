[package]
name = "rust_hl7"
version = "0.1.0"
edition = "2021"
publish = false

[dependencies]
bytes = "*"
chrono = "*"
clap = { version = "*", features = ["derive"] }
sentry = { version = "*", default-features = false }
serde = { version = "*", features = ["derive"] }
thiserror = "*"
tokio = { version = "*", features = ["full"] }
tokio-util = { version = "*", features = ["codec"] }
tracing = "*"
tracing-appender = "*"
tracing-subscriber = "*"
