[package]
name = "rcal"
version = "0.1.0"
edition = "2021"
publish = false

[dependencies]
chrono = "0.4"
clap = { version = "4", features = ["derive"] }
crossterm = "0.27"
dirs = "5"
notify = "6"
notify-rust = "4"
ratatui = "0.26"
toml = "0.8"
uuid = { version = "1", features = ["v4"] }
