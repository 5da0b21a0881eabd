[package]
name = "angelica"
version = "0.1.0"
edition = "2021"
publish = false

[dependencies]
unicode-width = "=0.2.3"
serde_json = "=1.0.154"
serde_yaml = "=0.9.34"
serde = { version = "=1.0.229", features = ["derive"] }
toml = "=0.8.23"
chrono = "=0.4.45"
anyhow = "=1.0.104"
dirs = "=5.0.1"
uuid = { version = "=1.29.0", features = ["v4"] }
rand = "=0.8.8"
tokio = { version = "=1.54.1", features = ["rt-multi-thread", "macros", "sync", "time", "process", "io-util"] }
clap = { version = "=4.6.7", features = ["derive"] }
ratatui = "=0.28.1"
crossterm = "=0.28.1"
genai = "=0.4.4"
futures = "=0.3.34"
async-trait = "=0.1.92"
reqwest = { version = "=0.12.28", default-features = false, features = ["json", "rustls-tls"] }
