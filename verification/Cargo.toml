[package]
name = "maestro_core"
version = "0.1.0"
edition = "2021"
publish = false

[dependencies]
chrono = { version = "0.4", features = ["serde"] }
serde = { version = "1", features = ["derive"] }
serde_json = "1"
tokio = { version = "1", features = ["rt", "rt-multi-thread", "sync", "time", "process", "macros", "io-util"] }
toml = "0.8"
tracing = "0.1"
uuid = { version = "1", features = ["v4"] }
