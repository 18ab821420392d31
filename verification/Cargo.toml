[package]
name = "latency"
version = "0.1.0"
edition = "2021"
publish = false

[dependencies]
anyhow = "1"
bincode = "1.3"
quinn = { version = "0.10", default-features = false, features = ["runtime-tokio"] }
serde = { version = "1", features = ["derive"] }
tokio = { version = "1", features = ["io-util", "macros", "net", "rt", "signal", "sync", "time"] }
