[package]
name = "deck"
version = "0.1.0"
edition = "2021"
publish = false

[dependencies]
anyhow = "1"
arboard = "3"
base64 = "0.22"
crossterm = "0.28"
dirs = "5"
image = { version = "0.25", default-features = false, features = ["png"] }
ratatui = "0.29"
serde = { version = "1", features = ["derive"] }
serde_json = "1"
tokio = { version = "1", features = ["rt", "time", "sync", "macros"] }
toml = "0.8"
unicode-segmentation = "1"
unicode-width = "0.2"
