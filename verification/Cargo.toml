[package]
name = "russh_core"
version = "0.1.0"
edition = "2021"
publish = false

[dependencies]
blake3 = "*"
ring = "0.17"
chrono = "0.4"
rand = "0.8"
uuid = { version = "*", features = ["v4"] }
serde = { version = "*", features = ["derive"] }
serde_json = "*"
base64 = "*"
tokio = { version = "*", features = ["rt", "rt-multi-thread", "sync", "time", "macros", "io-util"] }
