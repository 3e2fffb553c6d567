[package]
name = "punktf"
version = "0.1.0"
edition = "2021"
publish = false

[dependencies]
chrono = "0.4"
serde = { version = "1", features = ["derive"] }
serde_json = "1"
clap = { version = "4", features = ["derive"] }
color-eyre = "0.6"
env_logger = "0.11"
log = "0.4"
