[package]
name = "podcast_studio"
version = "0.1.0"
edition = "2021"
publish = false

[dependencies]
eframe = { version = "*", default-features = false, features = ["glow", "x11", "default_fonts"] }
rfd = "*"
serde = { version = "*", features = ["derive"] }
serde_json = "*"
env_logger = { version = "*", default-features = false }
