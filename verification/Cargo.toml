[package]
name = "alice_view"
version = "0.1.0"
edition = "2021"
publish = false

[dependencies]
image = "*"
tokio = { version = "*", features = ["fs", "rt-multi-thread"] }
pollster = "*"
serde_json = "*"
dirs = "*"
