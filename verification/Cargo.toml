[package]
name = "watch_bells"
version = "0.7.0"
edition = "2021"
publish = false

[dependencies]
chrono = "=0.4.45"
log = { version = "=0.4.35", features = ["std"] }
image = { version = "*", default-features = false, features = ["png"] }
objc2-core-foundation = "*"
rodio = "*"
rust-embed = "*"
simple_logger = "*"
tray-icon = "*"
winit = "*"
