[package]
name = "car_logger"
version = "0.1.0"
edition = "2021"
publish = false

[dependencies]
anyhow = "=1.0.104"
chrono = { version = "=0.4.45", features = ["serde"] }
serde = { version = "=1.0.229", features = ["derive"] }
serde_json = "=1.0.154"
thiserror = "=2.0.21"
sha2 = "=0.10.9"
semver = "=1.0.28"
uuid = { version = "=1.29.0", features = ["v4"] }
dashmap = "=6.2.1"
