[package]
name = "reze_bridge"
version = "0.1.0"
edition = "2021"
publish = false

[dependencies]
anyhow = "1"
base64 = "0.22"
dotenvy = "0.15"
linemux = "0.3"
mc-rcon = "*"
poise = "0.6"
rust-mc-status = "*"
serde_json = "1"
tokio = { version = "1", features = ["full"] }
tracing = "0.1"
tracing-subscriber = "0.3"

[dev-dependencies]
regex = "1"
