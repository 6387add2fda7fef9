[package]
name = "ttri"
version = "0.1.0"
edition = "2021"
publish = false

[dependencies]
image = { version = "0.24", default-features = false, features = ["png", "jpeg"] }
bytemuck = { version = "1", features = ["derive"] }
vulkano = "0.32"
vulkano-shaders = "0.32"
winit = "0.27"
nalgebra = "0.32"
