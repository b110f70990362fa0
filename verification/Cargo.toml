[package]
name = "honeypot_lite"
version = "0.1.0"
edition = "2021"
publish = false

[dependencies]
anyhow = "1"
dashmap = "6"
tokio = { version = "1", features = ["macros", "rt", "signal"] }
tracing = "0.1"
tracing-subscriber = "0.3"
twilight-gateway = "0.16"
twilight-http = "0.16"
twilight-model = "0.16"
twilight-util = { version = "0.16", features = ["builder"] }
