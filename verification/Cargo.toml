[package]
name = "icon_forge"
version = "0.1.0"
edition = "2021"
publish = false

[dependencies]
image = { version = "=0.25.10", default-features = false, features = ["png", "jpeg", "gif", "bmp", "ico", "tiff", "webp"] }
base64 = "=0.22.1"
serde = { version = "=1.0.229", features = ["derive"] }
serde_json = "=1.0.154"
dirs = "=5.0.1"
tokio = { version = "=1.54.1", features = ["fs", "process", "io-util", "rt", "macros"] }
tauri = { version = "2", default-features = false }
