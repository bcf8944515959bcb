[package]
name = "prometheus-csv-adapter"
version = "0.1.0"
edition = "2021"
publish = false

[dependencies]
csv = "1"
env_logger = "*"
inotify = { version = "0.9", default-features = false }
log = "0.4"
regex = "1"
serde = { version = "1", features = ["derive"] }
serde_regex = "1"
serde_yaml = "0.9"
tiny_http = "0.12"
