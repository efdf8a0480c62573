[package]
name = "larrez_player"
version = "1.0.0"
edition = "2021"
publish = false

[dependencies]
dirs = "=5.0.1"
serde = { version = "=1.0.229", features = ["derive"] }
serde_json = "=1.0.154"
winit = { version = "=0.29.15", features = ["rwh_05"] }
raw-window-handle = "=0.5.2"
rfd = "=0.14.1"
