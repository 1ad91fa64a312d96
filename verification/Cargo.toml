[package]
name = "boswell"
version = "0.1.0"
edition = "2021"
publish = false

[dependencies]
clap = { version = "4", features = ["derive"] }
env_logger = "0.11"
log = "0.4"
notify = "*"
notify-debouncer-full = "*"
serde = { version = "1", features = ["derive"] }
toml = "*"
ureq = { version = "3", features = ["json"] }
humantime-serde = "1"
