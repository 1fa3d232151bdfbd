[package]
name = "wifi_monitor"
version = "0.1.0"
edition = "2021"
publish = false

[dependencies]
chrono = "0.4"
pnet = "*"
rusqlite = "*"
thiserror = "1"
tokio = { version = "1", features = ["macros", "rt-multi-thread"] }
