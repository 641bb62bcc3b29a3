[package]
name = "shell_cast"
version = "0.1.0"
edition = "2021"
publish = false

[dependencies]
aes = "=0.9.4"
anyhow = "=1.0.104"
ashpd = { version = "=0.13.13", features = ["screencast"] }
ctr = "=0.10.1"
env_logger = "=0.11.11"
log = "=0.4.35"
mdns-sd = "=0.21.7"
parking_lot = "=0.12.5"
rand = "=0.10.3"
rust_cast = "=0.21.0"
rustls = { version = "=0.23.46", default-features = false, features = ["ring", "std", "logging", "tls12"] }
serde_json = "=1.0.154"
tiny_http = "=0.12.0"
tokio = { version = "=1.54.1", features = ["full"] }
zbus = "=5.19.0"
