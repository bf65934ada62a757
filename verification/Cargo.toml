[package]
name = "cwlogs_viewer"
version = "0.1.0"
edition = "2021"
publish = false

[dependencies]
urlencoding = "*"
ratatui = "*"
crossterm = "*"
tokio = { version = "*", features = ["macros", "rt-multi-thread", "sync", "time"] }
tokio-util = "*"
aws-config = { version = "*", default-features = false }
aws-sdk-cloudwatchlogs = "*"
chrono = "*"
chrono-tz = "*"
serde = { version = "*", features = ["derive"] }
serde_json = "*"
arboard = "*"
