[package]
name = "pls"
version = "0.1.0"
edition = "2021"
publish = false

[dependencies]
futures = "=0.3.34"
serde = { version = "=1.0.229", features = ["derive"] }
serde_json = "=1.0.151"
tokio = { version = "=1.53.2", features = ["full"] }
warp = { version = "=0.4.3", features = ["websocket", "server"] }
