[package]
name = "logslash"
version = "0.1.0"
edition = "2021"
publish = false

[dependencies]
chrono = "0.4"
futures = "0.1"
maybe-string = "*"
serde = "1"
serde_json = "1"
slog = "2"
slog-term = "2"
tokio-core = "0.1"
uuid = { version = "1", features = ["v4"] }
