[package]
name = "app_shell"
version = "0.1.0"
edition = "2021"

[dependencies]
tauri = { version = "2", default-features = false }
tauri-plugin-log = { version = "2", default-features = false }
