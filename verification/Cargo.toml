[package]
name = "i-seek-you"
version = "0.1.0"
edition = "2021"
publish = false

[dependencies]
rand = "=0.8.8"
turn = "=0.17.2"
webrtc-util = "=0.17.2"
serde = { version = "=1.0.229", features = ["derive"] }
serde_json = "=1.0.154"
tokio = { version = "=1.54.1", features = ["full"] }
tokio-stream = "=0.1.19"
futures-util = "=0.3.34"
futures-channel = "=0.3.34"
warp = "=0.3.7"
warp-real-ip = "=0.2.0"
lazy_static = "=1.5.1"
tokio-tungstenite = "=0.21.0"
tungstenite = "=0.21.0"
rustun = "=0.5.0"
fibers_global = "=0.1.2"
trackable = "=1.3.0"
