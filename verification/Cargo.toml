[package]
name = "sniff"
version = "0.1.0"
edition = "2021"
publish = false

[dependencies]
serde_json = { version = "1", features = ["preserve_order"] }
regex = "1"
notify = "4"
libc = "0.2"
log = "0.4"
env_logger = "*"
