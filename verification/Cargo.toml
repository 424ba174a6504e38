[package]
name = "swandns"
version = "0.1.0"
edition = "2021"
publish = false

[dependencies]
time = "0.3"
hickory-server = { version = "0.24", features = ["resolver"] }
tokio = { version = "1", features = ["full"] }
async-trait = "0.1"
tokio-rusqlite = "*"
rusqlite_migration = "*"
serde = { version = "1", features = ["derive"] }
serde_json = "1"
figment = { version = "0.10", features = ["yaml", "env"] }
platform-dirs = "*"
clap = { version = "4", features = ["derive"] }
anyhow = "1"
tracing = "0.1"
tracing-subscriber = "0.3"
chrono = "0.4"
cron-parser = "*"
local-ip-address = "*"
tokio-graceful-shutdown = "*"
tokio-retry = "*"
