[package]
name = "silly_image"
version = "0.1.0"
edition = "2021"
publish = false

[dependencies]
image = { version = "*", default-features = false, features = ["jpeg"] }
skia-safe = "*"
eframe = { version = "*", default-features = false, features = ["glow", "x11", "default_fonts"] }
