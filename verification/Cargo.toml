[package]
name = "relay"
version = "0.1.0"
edition = "2021"
publish = false

[dependencies]
httparse = "1"
tokio-core = "0.1"
futures = "0.1"
log = "0.4"
env_logger = { version = "0.10", default-features = false }
