[package]
name = "simple_aprs"
version = "0.1.0"
edition = "2021"
publish = false

[dependencies]
aprs-parser = "*"
async-stream = "*"
bytes = "1"
futures = "0.3"
log = "0.4"
thiserror = "*"
tokio = { version = "1", features = ["net", "time", "sync", "rt", "rt-multi-thread", "macros"] }
tokio-util = { version = "0.7", features = ["codec"] }
