[package]
name = "catdesk_delegated"
version = "0.1.0"
edition = "2021"
publish = false

[dependencies]
regex = "1"
serde = { version = "1", features = ["derive"] }
serde_json = "1"
tokio = { version = "1", features = ["rt", "rt-multi-thread", "process", "io-util", "sync", "time", "fs", "macros"] }
uuid = { version = "1", features = ["v4"] }
