[package]
name = "cdc"
version = "0.1.0"
edition = "2021"
publish = false

[dependencies]
vte = "0.13"
unicode-width = "0.2"
ratatui = "0.29"
crossterm = "0.28"
crossbeam-channel = "0.5"
portable-pty = "0.8"
clap = { version = "4", features = ["derive"] }
serde = { version = "1", features = ["derive"] }
serde_json = "1"
dirs = "5"
chrono = "0.4"
cpal = "0.17"
