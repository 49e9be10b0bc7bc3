[package]
name = "sdf_text"
version = "0.1.0"
edition = "2021"
publish = false

[dependencies]
artery-font = "*"
bytemuck = { version = "1", features = ["derive"] }
env_logger = "*"
nalgebra = "*"
pollster = "*"
rusttype = "*"
wgpu = "0.14"
winit = "0.27"
