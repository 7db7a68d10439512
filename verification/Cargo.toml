[package]
name = "sph_particles"
version = "0.1.0"
edition = "2021"
publish = false

[dependencies]
anyhow = "1"
bytemuck = { version = "1", features = ["derive"] }
cgmath = "0.18"
env_logger = "0.10"
log = "0.4"
nalgebra = "0.32"
pollster = "0.3"
rand = "0.8"
smaa = "0.9"
tobj = "3.2"
wgpu = "0.15"
winit = "0.28"
