[package]
name = "exiometter"
version = "0.1.0"
edition = "2021"
publish = false

[dependencies]
anyhow = "=1.0.104"
log = "=0.4.35"
env_logger = "=0.11.11"
libpulse-binding = "=2.30.1"
egui = "=0.29.1"
image = { version = "=0.25.10", default-features = false, features = ["png"] }
eframe = { version = "=0.29.1", default-features = false, features = ["default_fonts", "glow", "x11"] }
egui_extras = { version = "=0.29.1", default-features = false }
