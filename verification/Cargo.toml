[package]
name = "eventwork"
version = "0.1.0"
edition = "2021"
publish = false

[dependencies]
dashmap = "*"
async-channel = "*"
async-net = "*"
futures-lite = "*"
serde = { version = "*", features = ["derive"] }
serde_json = "*"
