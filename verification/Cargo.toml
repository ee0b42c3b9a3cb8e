[package]
name = "speakyfi"
version = "1.6.0"
edition = "2021"
publish = false

[dependencies]
aes-gcm = "0.10"
rand = "0.8"
machine-uid = "0.5"
serde = { version = "1", features = ["derive"] }
serde_json = "1"
hound = "3.5"
anyhow = "1"
log = "0.4"
env_logger = "0.11"
reqwest = { version = "0.12", default-features = false, features = ["json", "multipart", "rustls-tls"] }
tokio = { version = "1", features = ["time", "rt"] }
cpal = "0.15"
