[package]
name = "assistant"
version = "0.1.0"
edition = "2021"
publish = false

[dependencies]
serde = { version = "1", features = ["derive"] }
serde_json = "1"
tokio = { version = "1", features = ["process", "io-util", "rt", "rt-multi-thread", "macros", "time", "sync"] }
chrono = "0.4"
dirs = "*"
which = "*"
uuid = { version = "1", features = ["v4"] }
log = "0.4"
sqlx = { version = "0.8", default-features = false, features = ["sqlite", "runtime-tokio", "macros"] }
