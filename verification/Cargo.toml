[package]
name = "ice_spar"
version = "0.1.0"
edition = "2021"
publish = false

[dependencies]
bytemuck = { version = "=1.25.2", features = ["derive"] }
glam = "=0.25.0"
image = { version = "=0.25.10", default-features = false, features = ["png", "jpeg"] }
pollster = "=0.3.0"
russimp-ng = { version = "=3.2.7", default-features = false }
wgpu = { version = "=0.19.4", default-features = false, features = ["wgsl"] }
