[package]
name = "monad_monitor"
version = "0.1.0"
edition = "2021"
publish = false

[dependencies]
serde_json = "1"
anyhow = "1"
crossterm = "0.28"
futures = "0.3"
ratatui = "0.29"
reqwest = { version = "0.12", default-features = false }
tokio = { version = "1", features = ["full"] }
tokio-tungstenite = "0.24"
