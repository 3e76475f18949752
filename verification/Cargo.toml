[package]
name = "coordtest"
version = "0.1.0"
edition = "2021"
publish = false

[dependencies]
anyhow = "1"
datadriven = { version = "*", features = ["async"] }
futures = "0.3"
serde_json = "1"
tempfile = "3"
timely = "0.12"
tokio = { version = "1", features = ["macros", "rt", "sync", "time"] }
