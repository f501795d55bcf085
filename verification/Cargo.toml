[package]
name = "carnet"
version = "0.1.0"
edition = "2021"
publish = false

[dependencies]
rfd = { version = "0.15", default-features = false, features = ["gtk3"] }
serde = { version = "1", features = ["derive"] }
serde_json = "1"
tauri = { version = "2", default-features = false }
