[package]
name = "iron"
version = "0.1.0"
edition = "2021"
publish = false

[dependencies]
regex = "1"
tokio = { version = "1", features = ["rt-multi-thread", "macros", "net", "io-util"] }
log = "0.4"
env_logger = "0.11"
async-trait = "0.1"
