[package]
name = "ilc"
version = "0.1.0"
edition = "2021"
publish = false

[dependencies]
chrono = { version = "0.4", default-features = false, features = ["std"] }
rmp = "0.8"
docopt = "1"
env_logger = "0.11"
log = "0.4"
