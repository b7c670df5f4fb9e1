[package]
name = "voice_keyboard"
version = "0.1.0"
edition = "2021"
publish = false

[dependencies]
anyhow = "*"
clap = "*"
cpal = "*"
futures-util = "*"
http = "=1.5.0"
libc = "*"
nix = { version = "=0.31.3", features = ["fs", "ioctl", "user"] }
regex-syntax = "=0.8.11"
serde = "*"
serde_json = "=1.0.151"
tokio = { version = "*", features = ["macros", "rt-multi-thread", "sync", "time"] }
tokio-tungstenite = "=0.30.0"
tracing = "*"
tracing-subscriber = "*"

[dev-dependencies]
regex = "=1.13.1"
