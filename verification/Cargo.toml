[package]
name = "dastardly_daemon"
version = "0.1.0"
edition = "2021"
publish = false

[dependencies]
chrono = "=0.4.45"
dashmap = "=6.2.1"
rand = "=0.8.8"
uuid = { version = "=1.27.0", features = ["v4"] }
serde = { version = "=1.0.229", features = ["derive"] }
serde_yaml = "=0.9.34"
tokio = { version = "=1.53.2", features = ["rt-multi-thread", "sync", "time", "macros", "signal"] }
serenity = { version = "=0.12.5", default-features = false, features = ["builder", "http", "model", "rustls_backend"] }
tracing = "=0.1.44"
