[package]
name = "aravoxel"
version = "0.1.0"
edition = "2021"
publish = false

[dependencies]
bytemuck = { version = "1", features = ["derive"] }
glam = "*"
libnoise = "*"
pollster = "*"
wgpu = "0.19"
