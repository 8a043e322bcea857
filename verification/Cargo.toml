[package]
name = "live2d_chat_core"
version = "0.1.0"
edition = "2021"
publish = false

[dependencies]
base64 = "0.22"
flutter_rust_bridge = "*"
mint = "0.5"
once_cell = "1"
parking_lot = "0.12"
rsntp = "*"
tokio = { version = "1", features = ["rt", "rt-multi-thread", "time"] }
