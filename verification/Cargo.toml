[package]
name = "stream_seal"
version = "0.1.0"
edition = "2021"
publish = false

[dependencies]
chacha20poly1305 = { version = "0.10", features = ["stream"] }
flutter_rust_bridge = "1.62.1"
