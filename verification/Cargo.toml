[package]
name = "edr"
version = "0.1.0"
edition = "2021"
publish = false

[dependencies]
anyhow = "=1.0.104"
aya = { version = "=0.13.1", features = ["async_tokio"] }
aya-log = "=0.2.1"
bytes = "=1.12.1"
chrono = { version = "=0.4.45", features = ["serde"] }
clap = { version = "=4.6.7", features = ["derive"] }
crossterm = "=0.28.1"
hex = "=0.4.3"
inotify = "=0.11.5"
nix = { version = "=0.29.0", features = ["fanotify", "process", "signal"] }
ratatui = "=0.29.0"
regex = "=1.13.1"
rusqlite = { version = "0.32", features = ["bundled"] }
serde = { version = "=1.0.229", features = ["derive"] }
serde_json = "=1.0.154"
sha2 = "=0.10.9"
tokio = { version = "=1.54.1", features = ["full"] }
toml = "=0.8.23"
tracing = "=0.1.44"
tracing-subscriber = { version = "=0.3.23", features = ["env-filter"] }
