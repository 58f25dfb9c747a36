[package]
name = "collab_client"
version = "0.1.0"
edition = "2021"
publish = false

[dependencies]
loro = "0.16"
serde_json = "1"
tokio = { version = "1", features = ["rt-multi-thread", "macros", "net", "io-util", "io-std", "sync"] }
tracing = "0.1"

[dev-dependencies]
bytes = "1"
tokio-util = { version = "0.7", features = ["codec"] }
