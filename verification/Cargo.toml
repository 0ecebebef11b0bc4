[package]
name = "fan-manager"
version = "0.1.0"
edition = "2021"
publish = false

[dependencies]
axum = "*"
clap = { version = "4", features = ["derive"] }
env_logger = "0.11"
log = "0.4"
prometheus-client = "*"
prometheus-client-derive-encode = "*"
serialport = { version = "4", default-features = false }
sysinfo = { version = "*", default-features = false, features = ["component", "system"] }
tokio = { version = "1", features = ["full"] }
