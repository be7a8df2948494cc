[package]
name = "kinesis_360_mirror"
version = "0.1.0"
edition = "2021"
publish = false

[dependencies]
evdev = "0.12"
serde = { version = "1", features = ["derive"] }
core-foundation = "0.10"
tauri = { version = "2", default-features = false, features = ["tray-icon"] }
