[package]
name = "wash"
version = "0.1.0"
edition = "2021"
publish = false

[dependencies]
anyhow = "1"
clap = { version = "4", features = ["derive"] }
etcetera = "*"
serde_json = "1"
tokio = { version = "1", features = ["fs", "rt"] }
tracing = "0.1"
