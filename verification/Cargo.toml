[package]
name = "voicebridge"
version = "0.1.0"
edition = "2021"
publish = false

[dependencies]
crossbeam-channel = "*"
tungstenite = "*"
tokio = { version = "*", features = ["rt-multi-thread", "net"] }
tokio-tungstenite = "*"
futures = "*"
http = "*"
portaudio = "*"
