[package]
name = "mayfly-helper"
version = "0.1.0"
edition = "2021"
publish = false

[dependencies]
rustix = { version = "1", features = ["net", "process"] }
serde = { version = "1", features = ["derive"] }
serde_json = "1"
signal-hook = "0.3"
tempfile = "3"
thiserror = "2"
tracing = "0.1"
tracing-subscriber = { version = "0.3", features = ["env-filter", "json"] }
