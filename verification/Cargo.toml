[package]
name = "voxel_chunks"
version = "0.1.0"
edition = "2021"
publish = false

[dependencies]
anyhow = "=1.0.104"
bytemuck = { version = "=1.25.2", features = ["derive"] }
cgmath = "=0.18.0"
env_logger = "=0.9.3"
futures = "=0.3.34"
generational-arena = "=0.2.9"
image = "=0.23.14"
lifeguard = "=0.6.1"
noise = "=0.7.0"
rand = "=0.8.8"
tobj = "3"
wgpu = "=0.9.0"
winit = "=0.25.0"
