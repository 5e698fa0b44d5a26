[package]
name = "emora_core"
version = "0.1.0"
edition = "2021"
publish = false

[dependencies]
rand = "=0.9.5"
egui = { version = "=0.32.3", default-features = false, features = ["default_fonts"] }
eframe = { version = "=0.32.3", default-features = false, features = ["default_fonts", "glow", "x11"] }
