[package]
name = "notification_bridge"
version = "0.1.0"
edition = "2021"
publish = false

[dependencies]
serde_json = "1"
serde = { version = "1", features = ["derive"] }
syn = { version = "2", features = ["full"] }
quote = "1"
jni = "0.21"
libc = "0.2"
tauri = { version = "2", default-features = false }
