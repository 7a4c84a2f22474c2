[package]
name = "punk_server"
version = "0.1.0"
edition = "2021"
publish = false

[dependencies]
bimap = "*"
tokio = { version = "1", features = ["full"] }
async-trait = "*"
log = "*"
env_logger = "*"
