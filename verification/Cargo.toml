[package]
name = "blackholes"
version = "0.1.0"
edition = "2021"
publish = false

[dependencies]
anyhow = "=1.0.104"
base64 = "=0.22.1"
chrono = "=0.4.45"
flume = "=0.11.1"
notify = "=8.2.1"
parking_lot = "=0.12.5"
portable-pty = "=0.9.0"
rfd = { version = "=0.16.1", default-features = false, features = ["xdg-portal", "tokio"] }
serde = { version = "=1.0.229", features = ["derive"] }
serde_json = "=1.0.154"
tracing = "=0.1.44"
uuid = { version = "=1.29.0", features = ["v4"] }
