[package]
name = "akasha"
version = "0.1.0"
edition = "2021"
publish = false

[dependencies]
httparse = "=1.10.1"
base64 = "=0.22.1"
rand = "=0.9.5"
unicode-width = "=0.2.0"
chrono = "=0.4.45"
http = "=1.5.0"
reqwest = { version = "=0.12.28", default-features = false, features = ["rustls-tls"] }
tokio = { version = "=1.54.1", features = ["rt-multi-thread", "macros", "net", "io-util", "time", "sync"] }
serde = { version = "=1.0.229", features = ["derive"] }
serde_yaml = "=0.9.34"
toml = "=0.8.23"
serde_json = "=1.0.154"
clap = { version = "=4.6.7", features = ["derive"] }
ratatui = "=0.29.0"
crossterm = { version = "=0.28.1", features = ["event-stream"] }
futures = "=0.3.34"
dirs = "=6.0.0"
log = "=0.4.35"
sysproxy = "=0.3.0"
