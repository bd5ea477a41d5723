[package]
name = "stats"
version = "0.1.0"
edition = "2021"
publish = false

[dependencies]
chrono = "0.4"
chrono-tz = "0.10"
regex = "1"
serde = { version = "1", features = ["derive"] }
serde_json = "1"
toml = "0.8"
dirs = "6"
rand = "0.8"
sysinfo = "0.35"
ureq = "2"
tungstenite = "0.26"
crossterm = "0.28"
ratatui = "0.29"
portable-pty = "0.9"
