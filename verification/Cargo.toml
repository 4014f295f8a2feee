[package]
name = "clewdr"
version = "0.1.0"
edition = "2021"
publish = false

[dependencies]
axum = "0.8"
colored = "3"
enable-ansi-support = "0.2"
futures = "0.3"
scopeguard = "1"
serde = { version = "1", features = ["derive"] }
serde_json = "1"
tokio = { version = "1", features = ["rt-multi-thread", "macros", "sync", "time", "net", "signal"] }
tower = "0.5"
tower-http = { version = "0.6", features = ["cors", "fs", "trace"] }
tracing = "0.1"
tracing-appender = "0.2"
tracing-subscriber = { version = "0.3", features = ["fmt", "chrono"] }
uuid = { version = "1", features = ["v4"] }
