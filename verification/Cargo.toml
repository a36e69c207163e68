[package]
name = "terse"
version = "0.1.0"
edition = "2021"
publish = false

[dependencies]
regex = "=1.13.1"
fancy-regex = "=0.20.0"
tiktoken-rs = "=0.12.1"
serde = { version = "=1.0.229", features = ["derive"] }
serde_json = "=1.0.154"
clap = { version = "=4.6.7", features = ["derive"] }
axum = "=0.8.9"
tokio = { version = "=1.54.1", features = ["rt-multi-thread", "macros", "net", "signal", "fs"] }
reqwest = { version = "=0.12.28", default-features = false, features = ["rustls-tls", "stream"] }
bytes = "=1.12.1"
self_update = "=1.3.3"
