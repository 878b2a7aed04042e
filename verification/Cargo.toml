[package]
name = "audio_backend"
version = "0.1.0"
edition = "2021"
publish = false

[dependencies]
serde_json = "1"
regex = "1"
serde = { version = "1", features = ["derive"] }
tungstenite = "0.17"
mdns-sd = "0.5"
local-ip-address = "0.4"
tokio = { version = "1", features = ["net"] }
tokio-tungstenite = "0.17"
futures-util = "0.3"
