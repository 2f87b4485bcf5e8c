[package]
name = "pathos"
version = "0.1.0"
edition = "2021"
publish = false

[dependencies]
clap = { version = "4", features = ["derive"] }
serde = { version = "1", features = ["derive"] }
serde_yaml = "0.9"
toml = "0.8"
rhai = "1"
ratatui = "0.29"
crossterm = "0.28"
thiserror = "1"
