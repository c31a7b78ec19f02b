[package]
name = "screen_timer"
version = "0.1.0"
edition = "2021"
publish = false

[dependencies]
clap = { version = "4", features = ["derive"] }
serde = { version = "1", features = ["derive"] }
serde_json = "1"
eframe = { version = "0.31", default-features = false, features = ["glow", "default_fonts", "x11"] }
tray-icon = "0.20"
image = { version = "0.25", default-features = false, features = ["png", "jpeg", "webp"] }
core-graphics = "0.24"
