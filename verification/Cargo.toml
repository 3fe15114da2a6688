[package]
name = "daenerys"
version = "0.1.0"
edition = "2021"
publish = false

[dependencies]
regex = "=1.13.1"
serde = { version = "=1.0.229", features = ["derive"] }
serde_json = "=1.0.154"
egui = "=0.29.1"
eframe = { version = "=0.29.1", default-features = false, features = ["default_fonts", "glow", "x11"] }
egui_extras = { version = "=0.29.1", default-features = false }
egui-aesthetix = "=0.2.4"
ehttp = "=0.5.0"
poll-promise = "=0.3.0"
human_bytes = "=0.4.3"
number_prefix = "=0.4.0"
env_logger = "=0.11.11"
log = "=0.4.35"
posix-acl = "=1.2.0"
