[package]
name = "orderbook_server"
version = "0.1.0"
edition = "2021"
publish = false

[dependencies]
tokio = { version = "1", features = ["rt", "net", "io-util", "sync", "macros"] }
clap = { version = "4", features = ["derive"] }
env_logger = "0.11"
log = "0.4"
