[package]
name = "log_stat"
version = "0.1.0"
edition = "2021"
publish = false

[dependencies]
chrono = { version = "0.4", default-features = false, features = ["std"] }
clap = "2"
env_logger = "0.11"
log = "0.4"
serde_json = "1"
