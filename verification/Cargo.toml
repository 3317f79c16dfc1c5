[package]
name = "notification_settings"
version = "0.1.0"
edition = "2021"
publish = false

[dependencies]
serde_json = "1"
uuid = { version = "1", features = ["v4"] }
mongodb = "2"
tokio = { version = "1", features = ["rt-multi-thread", "macros", "sync", "time"] }
futures = "0.3"
indicatif = "0.17"
ctrlc = "3"
chrono = "0.4"
