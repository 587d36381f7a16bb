[package]
name = "xtr"
version = "0.1.0"
edition = "2021"
publish = false

[dependencies]
bytes = "1"
tokio = { version = "1", features = ["full"] }
tokio-util = { version = "0.7", features = ["codec"] }
tokio-stream = "0.1"
log = "0.4"
env_logger = "0.11"
libc = "0.2"
bitflags = "2"
