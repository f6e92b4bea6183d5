[package]
name = "obt_server"
version = "0.1.0"
edition = "2021"
publish = false

[dependencies]
anyhow = "=1.0.104"
base64 = "=0.22.1"
clap = { version = "=4.6.7", features = ["cargo"] }
compio = "0.16"
env_logger = "=0.11.11"
futures = "=0.3.34"
log = "=0.4.34"
ntex = { version = "=2.18.0", features = ["compio", "rustls"] }
rmp-serde = "=1.3.1"
rustls = "=0.23.46"
serde = { version = "=1.0.229", features = ["derive"] }
serde_bytes = "=0.11.19"
