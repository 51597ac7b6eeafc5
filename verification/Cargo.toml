[package]
name = "latmon"
version = "0.1.0"
edition = "2021"
publish = false

[dependencies]
crossterm = "*"
env_logger = "*"
ratatui = "*"
reqwest = { version = "*", default-features = false, features = ["rustls-tls"] }
tokio = { version = "*", features = ["rt-multi-thread", "macros", "time", "sync"] }
