[package]
name = "tetr_monitor"
version = "0.1.0"
edition = "2021"
publish = false

[dependencies]
serde = { version = "*", features = ["derive"] }
serde_json = "*"
reqwest = { version = "*", default-features = false, features = ["rustls-tls"] }
tokio = { version = "*", features = ["rt-multi-thread", "macros"] }
futures = "*"
chrono = "*"
country-emoji = "*"
pretty-duration = "*"
timeago = "*"
