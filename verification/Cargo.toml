[package]
name = "nocobase_desktop"
version = "0.1.0"
edition = "2021"
publish = false

[dependencies]
flate2 = "1"
libc = "0.2"
serde = { version = "1", features = ["derive"] }
serde_json = "1"
tar = { version = "0.4", default-features = false }
tauri = { version = "2", default-features = false, features = ["wry"] }
uuid = { version = "1", features = ["v4"] }
