[package]
name = "arena"
version = "0.1.0"
edition = "2021"
publish = false

[dependencies]
rand = "=0.10.3"
glam = { version = "=0.34.1", features = ["bytemuck"] }
wgpu = { version = "=30.0.1", default-features = false, features = ["wgsl"] }
winit = { version = "=0.30.13", default-features = false, features = ["rwh_06", "x11"] }
pollster = "*"
log = "*"
env_logger = "*"
anyhow = "*"
bytemuck = { version = "=1.25.2", features = ["derive"] }
serde = { version = "*", features = ["derive"] }
serde_json = "*"
zip = { version = "=8.6.0", default-features = false, features = ["deflate"] }
image = { version = "=0.25.10", default-features = false, features = ["png"] }
