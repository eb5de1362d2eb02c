[package]
name = "light_game"
version = "0.1.0"
edition = "2021"
publish = false

[dependencies]
rand = "0.8"
nalgebra = "0.31"
nalgebra-glm = "0.17"
bytemuck = { version = "1", features = ["derive"] }
bevy = { version = "0.8", default-features = false }
bevy_vulkano = "0.6"
vulkano = "0.30"
vulkano-shaders = "0.30"
vulkano-util = "0.30"
vulkano-win = "0.30"
winit = "0.26"
