[package]
name = "vibetunnel_core"
version = "0.1.0"
edition = "2021"
publish = false

[dependencies]
urlencoding = "2"
serde = { version = "1", features = ["derive"] }
tokio = { version = "1", features = ["rt", "time", "sync", "macros"] }
chrono = "0.4"
