[package]
name = "monitoring_core"
version = "0.1.0"
edition = "2021"
publish = false

[dependencies]
crossbeam = "=0.8.5"
snap = "=1.1.2"
flate2 = "=1.1.10"
sha2 = "=0.11.0"
uuid = { version = "=1.27.0", features = ["v4"] }
chrono = "=0.4.45"
jsonwebtoken = { version = "=11.1.0", default-features = false, features = ["rust_crypto"] }
serde_json = "=1.0.151"
rand = "=0.9.5"
tokio = { version = "=1.53.2", features = ["full"] }
axum = { version = "=0.8.9", features = ["ws"] }
clap = { version = "=4.6.7", features = ["derive"] }
serde = { version = "=1.0.229", features = ["derive"] }
toml = "=1.1.6"
tokio-tungstenite = "=0.30.0"
futures-util = "=0.3.34"
hostname = "=0.4.2"
