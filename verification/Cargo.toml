[package]
name = "zkproxy"
version = "0.1.0"
edition = "2021"
publish = false

[dependencies]
bytes = "1"
dashmap = "5"
tokio-util = { version = "0.7", features = ["codec"] }
tokio = { version = "1", features = ["full"] }
futures = "0.3"
env_logger = "0.10"
