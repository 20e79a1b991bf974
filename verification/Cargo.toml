[package]
name = "eventflow"
version = "0.1.0"
edition = "2021"
publish = false

[dependencies]
nostr = "=0.44.8"
nostr-sdk = "=0.44.1"
chrono = "=0.4.45"
tokio = { version = "*", features = ["full"] }
serde = { version = "*", features = ["derive"] }
serde_json = "*"
toml = "*"
clap = { version = "*", features = ["derive"] }
tracing = "*"
tracing-subscriber = { version = "*", features = ["env-filter"] }
anyhow = "*"
