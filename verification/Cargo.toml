[package]
name = "joerl"
version = "0.1.0"
edition = "2021"
publish = false

[dependencies]
dashmap = "6"
serde = { version = "1", features = ["derive"] }
bincode = "1"
thiserror = "*"
tokio = { version = "1", features = ["full"] }
tokio-util = "*"
tracing = "*"
metrics = "*"
async-trait = "*"
futures = "*"
