[package]
name = "echo_aec"
version = "0.1.0"
edition = "2021"
publish = false

[dependencies]
anyhow = "1"
axum = { version = "0.7", features = ["ws"] }
cpal = "0.15"
flexaudio = "0.2"
futures-util = "0.3"
parking_lot = "0.12"
ringbuf = "0.4"
serde = { version = "1", features = ["derive"] }
serde_json = "1"
tokio = { version = "1", features = ["full"] }
tower-http = { version = "0.5", features = ["cors"] }
tracing = "0.1"
tracing-subscriber = "0.3"
webrtc-audio-processing = "2"
webrtc-audio-processing-config = "*"
