[package]
name = "iuc_bot"
version = "0.1.0"
edition = "2021"
publish = false

[dependencies]
scraper = "*"
serde = { version = "1", features = ["derive"] }
serde_json = "1"
anyhow = "1"
reqwest = { version = "0.11", default-features = false, features = ["blocking", "cookies", "rustls-tls"] }
tokio = { version = "1", features = ["rt-multi-thread", "macros"] }
ratatui = "=0.21.0"
crossterm = "0.26"
log = "0.4"
simplelog = "0.12"
dashmap = "5"
once_cell = "1"
