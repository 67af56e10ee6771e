[package]
name = "webos"
version = "0.1.0"
edition = "2021"
publish = false

[dependencies]
uuid = { version = "1", features = ["v4"] }
serde = { version = "1", features = ["derive"] }
serde_json = "1"
anyhow = "1"
tokio = { version = "1", features = ["full"] }
axum = "0.8"
futures = "0.3"
tower-http = { version = "0.6", features = ["fs", "compression-full"] }
hyper-util = { version = "0.1", features = ["full"] }
socket2 = { version = "0.5", features = ["all"] }
bytes = "1"
reqwest = { version = "0.12", default-features = false, features = ["json", "rustls-tls"] }
rustls = "0.23"
webrtc = "0.13"
webrtc-ice = "0.13"
