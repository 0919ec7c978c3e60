[package]
name = "tauri_app"
version = "0.1.0"
edition = "2021"
publish = false

[dependencies]
http = "=1.5.0"
log = "=0.4.35"
raw-window-handle = "=0.6.2"
serde = { version = "=1.0.229", features = ["derive"] }
serde_json = "=1.0.154"
serialize-to-javascript = "=0.1.2"
url = "=2.5.8"
