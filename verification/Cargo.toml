[package]
name = "donut"
version = "0.1.0"
edition = "2021"
publish = false

[dependencies]
chrono = "0.4"
dirs = "5"
serde = { version = "1", features = ["derive"] }
serde_yaml = "0.9"
ratatui = "0.29"
crossterm = "0.28"
