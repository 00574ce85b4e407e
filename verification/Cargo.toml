[package]
name = "simsync"
version = "0.1.0"
edition = "2021"
publish = false

[dependencies]
sha2 = "0.10"
hex = "0.4"
uuid = { version = "1", features = ["v4"] }
chrono = "0.4"
serde = { version = "1", features = ["derive"] }
serde_json = "1"
walkdir = "2"
dirs = "5"
whoami = "1"
log = "0.4"
env_logger = "0.11"
rayon = "1"
notify = "6"
tokio = { version = "1", features = ["sync", "rt", "macros", "fs", "time"] }
