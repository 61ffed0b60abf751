[package]
name = "voxel_visibility"
version = "0.1.0"
edition = "2021"
publish = false

[dependencies]
bytemuck = "1"
fastanvil = "*"
glam = "*"
pollster = "0.3"
wgpu = "22"
winit = "0.30"

[dev-dependencies]
fastnbt = "2"
