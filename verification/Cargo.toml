[package]
name = "tcp_gateway"
version = "0.1.0"
edition = "2021"
publish = false

[dependencies]
anyhow = "1"
clap = { version = "4", features = ["derive"] }
env_logger = "*"
log = "0.4"
serde = { version = "1", features = ["derive"] }
tcp-channel-server = "*"
tokio = { version = "1", features = ["full"] }

[dev-dependencies]
bytes = "1"
data-rw = "*"
