[package]
name = "lieutenant"
version = "0.1.0"
edition = "2021"
publish = false

[dependencies]
regex = "=1.13.1"
rusqlite = { version = "=0.28.0", features = ["bundled", "functions"] }
crossterm = "=0.25.0"
tui = "=0.19.0"
serde = { version = "=1.0.229", features = ["derive"] }
serde_json = "=1.0.154"
config = "=0.11.0"
csv = "=1.4.0"
chrono = "=0.4.45"
clap = "=3.2.25"
anyhow = "=1.0.104"
reqwest = { version = "=0.11.27", features = ["blocking", "json"] }
self_update = "=0.32.0"
