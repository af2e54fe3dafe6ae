[package]
name = "v1bectl"
version = "0.1.0"
edition = "2021"
publish = false

[dependencies]
chrono = "=0.4.45"
uuid = { version = "=1.29.0", features = ["v4"] }
serde = { version = "=1.0.229", features = ["derive"] }
serde_json = "=1.0.154"
ciborium = "=0.2.2"
tokio = { version = "=1.54.1", features = ["full"] }
anyhow = "=1.0.104"
thiserror = "=1.0.69"
async-trait = "=0.1.92"
clap = { version = "=4.6.7", features = ["derive"] }
kdl = "=6.7.1"
toml = "=0.8.23"
rand = "=0.8.8"
futures-util = "=0.3.34"
tokio-tungstenite = "=0.24.0"
axum = { version = "=0.7.9", features = ["ws"] }
reqwest = { version = "=0.12.28", default-features = false, features = ["json", "rustls-tls"] }
ratatui = "0.29"
crossterm = "0.28"
