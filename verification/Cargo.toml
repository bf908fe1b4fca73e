[package]
name = "lyryc"
version = "0.1.0"
edition = "2021"
publish = false

[dependencies]
regex = "1"
urlencoding = "2"
tokio = { version = "1", features = ["rt-multi-thread", "macros", "time", "sync", "net"] }
tokio-util = "0.7"
reqwest = { version = "0.12", default-features = false, features = ["json", "rustls-tls"] }
serde = { version = "1", features = ["derive"] }
serde_json = "1"
anyhow = "1"
log = "0.4"
env_logger = "0.11"
futures-util = "0.3"
tokio-tungstenite = "0.21"
uuid = { version = "1", features = ["v4"] }
chrono = "0.4"
csv = "1"
dotenv = "0.15"
rand = "0.8"
serde_yaml = "0.9"
