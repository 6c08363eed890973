[package]
name = "ht"
version = "0.3.0"
edition = "2021"
publish = false

[dependencies]
anyhow = "1"
avt = "*"
axum = { version = "0.7", default-features = false, features = ["http1", "ws", "query", "tokio"] }
clap = { version = "4", features = ["derive"] }
futures-util = "0.3"
mime_guess = "2"
nix = { version = "0.28", features = ["term", "process", "fs", "signal"] }
serde = { version = "1", features = ["derive"] }
serde_json = "1"
tokio = { version = "1", features = ["full"] }
tokio-stream = { version = "0.1", features = ["sync"] }
