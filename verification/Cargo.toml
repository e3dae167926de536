[package]
name = "optcore"
version = "0.1.0"
edition = "2021"
publish = false

[dependencies]
async-process = "1"
async-trait = "0.1"
futures = "0.3"
futures-timer = "3"
serde_json = "1"
tokio = { version = "1", features = ["macros"] }
