[package]
name = "aki"
version = "0.1.0"
edition = "2021"
publish = false

[dependencies]
anyhow = "1"
chrono = { version = "=0.4.45", features = ["serde"] }
clap = { version = "4", features = ["derive"] }
dirs = "5"
env_logger = "0.10"
futures-util = "0.3"
hyper = { version = "=0.14.32", features = ["full"] }
hyper-tungstenite = "=0.8.2"
jsonwebtoken = "=8.3.0"
log = "0.4"
mime_guess = "2"
rand = "=0.8.8"
reqwest = { version = "=0.11.27", features = ["json", "stream"] }
serde = { version = "1", features = ["derive"] }
serde_json = "=1.0.151"
tokio = { version = "1", features = ["full"] }
toml = "0.7"
uuid = { version = "=1.27.0", features = ["v4"] }
