[package]
name = "blipply_assistant"
version = "0.1.0"
edition = "2021"
publish = false

[dependencies]
anyhow = "1"
async-stream = "0.3"
bytes = "1"
clap = { version = "=4.6.7", features = ["derive"] }
cpal = "0.15"
dirs = "=5.0.1"
evdev = "=0.12.2"
futures = "0.3"
ndarray = "0.15"
ort = "=2.0.0-rc.15"
parking_lot = "0.12"
pin-project = "1"
reqwest = { version = "=0.11.27", default-features = false, features = ["json", "stream"] }
rubato = "=0.12.0"
serde = { version = "1", features = ["derive"] }
serde_json = "1"
tokio = { version = "=1.54.1", features = ["rt-multi-thread", "macros", "sync", "time"] }
toml = "=0.8.23"
tracing = "0.1"
tracing-subscriber = { version = "0.3", features = ["env-filter"] }
webrtc-vad = "=0.4.0"
whisper-rs = "=0.10.0"
zbus = "=5.19.0"
