[package]
name = "abi_yt_downloader"
version = "1.0.0"
edition = "2021"
publish = false

[dependencies]
chrono = { version = "=0.4.45", features = ["serde"] }
uuid = { version = "=1.29.1", features = ["v4"] }
getrandom = "=0.4.3"
regex = "=1.13.1"
dirs = "=5.0.1"
directories = "=5.0.1"
serde = { version = "=1.0.229", features = ["derive"] }
serde_json = "=1.0.154"
anyhow = "=1.0.104"
parking_lot = "=0.12.5"
tokio = { version = "=1.54.1", features = ["process", "io-util", "sync", "rt-multi-thread", "macros"] }
tokio-util = "=0.7.20"
futures-util = "=0.3.34"
tracing = "=0.1.44"
tracing-subscriber = { version = "=0.3.23", features = ["env-filter"] }
