[package]
name = "objcache"
version = "0.1.0"
edition = "2021"
publish = false

[dependencies]
dashmap = "*"
redis = { version = "0.23", features = ["aio", "tokio-comp"] }
serde = { version = "*", features = ["derive"] }
async-trait = "*"
