[package]
name = "always_bind_window"
version = "0.1.0"
edition = "2021"
publish = false

[dependencies]
uuid = { version = "1", features = ["v4"] }
serde = { version = "1", features = ["derive"] }
serde_json = "1"
dirs = "5"
log = "0.4"
env_logger = "0.11"
global-hotkey = "0.6"
tray-icon = "*"
winit = "0.30"
