[package]
name = "playground-common"
version = "0.1.0"
edition = "2021"
publish = false

[dependencies]
dashmap = "6"
tokio = { version = "1", features = ["full"] }
tokio-util = "0.7"
named-lock = "0.4"
libc = "0.2"
anyhow = "1"
tracing = "0.1"
tracing-subscriber = "0.3"
