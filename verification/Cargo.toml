[package]
name = "cdx_rs"
version = "0.1.0"
edition = "2021"
publish = false

[dependencies]
ratatui = "0.29"
crossterm = "0.28"
nucleo-matcher = "0.3"
ignore = "0.4"
clap = { version = "4", features = ["derive"] }
dirs = "5"
anyhow = "1"
serde = { version = "1", features = ["derive"] }
serde_json = "1"
toml = "0.8"
regex = "1"
ansi-to-tui = "7"
