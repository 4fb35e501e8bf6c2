[package]
name = "capture_media"
version = "0.1.0"
edition = "2021"
publish = false

[dependencies]
color_quant = "*"
gif = "*"
image = { version = "*", default-features = false, features = ["png"] }
