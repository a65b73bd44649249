[package]
name = "termweb_client"
version = "0.1.0"
edition = "2021"
publish = false

[dependencies]
anyhow = "=1.0.104"
base64 = "=0.22.1"
clap = { version = "=4.6.7", features = ["derive"] }
crossterm = { version = "=0.29.0", features = ["event-stream"] }
futures-util = { version = "=0.3.34", features = ["sink"] }
image = { version = "=0.25.10", default-features = false, features = ["jpeg"] }
log = "=0.4.35"
ratatui = "=0.30.2"
ratatui-image = { version = "=1.0.5", default-features = false, features = ["crossterm"] }
serde = { version = "=1.0.229", features = ["derive"] }
serde_json = "=1.0.154"
tokio = { version = "=1.54.1", features = ["rt-multi-thread", "macros", "sync", "time"] }
tokio-tungstenite = "=0.24.0"
