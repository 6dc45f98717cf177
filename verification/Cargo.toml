[package]
name = "tello_autopilot"
version = "0.1.0"
edition = "2021"
publish = false

[dependencies]
async-std = "1"
env_logger = "*"
log = "0.4"
serde = { version = "1", features = ["derive"] }
serde_json = "1"
tokio = { version = "1", features = ["full"] }
