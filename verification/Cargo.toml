[package]
name = "gluebox_core"
version = "0.1.0"
edition = "2021"
publish = false

[dependencies]
anyhow = "1"
serde = { version = "1", features = ["derive"] }
tokio = { version = "1", features = ["sync"] }
toml = "0.8"
tracing = "0.1"
