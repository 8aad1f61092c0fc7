[package]
name = "nstow"
version = "0.1.0"
edition = "2021"
publish = false

[dependencies]
anyhow = "1"
clap = { version = "4", features = ["derive"] }
clap-verbosity-flag = "2"
env_logger = "0.10"
log = "0.4"
regex = "1"
serde = { version = "1", features = ["derive"] }
serde_yaml = "0.9"
