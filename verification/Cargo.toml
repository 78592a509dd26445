[package]
name = "lichess_tv"
version = "0.1.0"
edition = "2021"
publish = false

[dependencies]
color-eyre = "=0.6.5"
crossterm = "=0.29.0"
ratatui = "=0.30.2"
serde = { version = "=1.0.229", features = ["derive"] }
serde_json = "=1.0.154"
shakmaty = "=0.29.4"
ureq = "=3.5.0"
