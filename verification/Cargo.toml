[package]
name = "macos-task-cleaner-core"
version = "0.1.0"
edition = "2021"
publish = false

[dependencies]
libc = "0.2"
objc2-app-kit = "0.3"
serde = { version = "1", features = ["derive"] }
serde_json = "1"
toml = "0.8"
