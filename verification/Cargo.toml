[package]
name = "render_scene"
version = "0.1.0"
edition = "2021"
publish = false

[dependencies]
bytemuck = { version = "=1.25.2", features = ["derive"] }
nalgebra = { version = "=0.31.4", features = ["convert-bytemuck"] }
rand = "=0.8.8"
tobj = "=3.2.5"
vulkano = "0.31"
vulkano-shaders = "0.31"
vulkano-win = "0.31"
winit = "=0.27.5"
