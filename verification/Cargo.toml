[package]
name = "infrarust"
version = "0.1.0"
edition = "2021"
publish = false

[dependencies]
uuid = "1"
flate2 = "1"
bytes = "1"
aes = "0.8"
cfb8 = "0.8"
fastnbt = "2"
serde = { version = "1", features = ["derive"] }
serde_json = "1"
thiserror = "2"
tokio = { version = "1", features = ["process", "io-util", "sync", "time", "rt", "macros"] }
tokio-util = "0.7"
reqwest = { version = "0.12", default-features = false, features = ["json"] }
tracing = "0.1"
