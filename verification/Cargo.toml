[package]
name = "kirei"
version = "0.1.0"
edition = "2021"
publish = false

[dependencies]
arboard = { version = "3", default-features = false }
bytemuck = { version = "1", features = ["derive"] }
glam = "0.29"
glyphon = "0.8"
image = { version = "0.25", default-features = false, features = ["png", "jpeg"] }
wgpu = "24"
winit = "0.30"
