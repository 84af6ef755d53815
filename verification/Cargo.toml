[package]
name = "oxytiles"
version = "0.1.0"
edition = "2021"
publish = false

[dependencies]
eframe = { version = "0.31", default-features = false, features = ["glow", "default_fonts", "x11"] }
egui = "0.31"
egui_extras = "0.31"
image = { version = "0.25", default-features = false, features = ["png", "jpeg"] }
rfd = "0.15"
