[package]
name = "farcri"
version = "0.1.0"
edition = "2021"
publish = false

[dependencies]
rand = "0.8"
tokio = { version = "1", features = ["rt-multi-thread", "io-util", "net", "time", "macros", "sync"] }
anyhow = "1"
log = "0.4"
env_logger = "*"
serde = { version = "1", features = ["derive"] }
serde-json-core = "*"
