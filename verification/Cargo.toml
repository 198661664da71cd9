[package]
name = "wgpu_shapes"
version = "0.1.0"
edition = "2021"
publish = false

[dependencies]
rectangle-pack = "=0.4.2"
image = { version = "=0.24.9", default-features = false, features = ["png", "jpeg"] }
bytemuck = { version = "=1.25.2", features = ["derive"] }
wgpu = { version = "=0.20.1", default-features = false, features = ["wgsl"] }
