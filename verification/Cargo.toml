[package]
name = "snake"
version = "0.1.0"
edition = "2021"
publish = false

[dependencies]
rand = "0.9"
eframe = { version = "0.36", default-features = false, features = ["glow", "x11", "default_fonts"] }
