[package]
name = "mmo-server"
version = "1.1.0"
edition = "2021"
publish = false

[dependencies]
byteorder = "1"
rand = "0.8"
time = "0.1"
serde = { version = "1", features = ["derive"] }
serde_json = "1"
clap = "2"
memcache = { version = "0.17", default-features = false }
log = "0.4"
env_logger = { version = "0.9", default-features = false }
