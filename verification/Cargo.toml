[package]
name = "wgg"
version = "0.1.0"
edition = "2021"
publish = false

[dependencies]
regex = "1"
md-5 = "0.10"
hex = "0.4"
chrono = "0.4"
cron = "0.12"
uuid = { version = "1", features = ["v4"] }
keyed_priority_queue = "0.4"
serde = { version = "1", features = ["derive"] }
serde_json = "1"
anyhow = "1"
thiserror = "1"
tokio = { version = "1", features = ["rt", "sync", "time", "macros"] }
reqwest = { version = "0.11", default-features = false, features = ["json"] }
futures = "0.3"
async-trait = "0.1"
