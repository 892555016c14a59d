[package]
name = "px_core"
version = "0.1.0"
edition = "2021"
publish = false

[dependencies]
uuid = { version = "1", features = ["v4"] }
tokio = { version = "1", features = ["rt-multi-thread", "time", "net", "io-util", "sync"] }
async-trait = "0.1"
tracing = "0.1"
