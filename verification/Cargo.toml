[package]
name = "wgpu_app"
version = "0.1.0"
edition = "2021"
publish = false

[dependencies]
wgpu = "28.0.0"
winit = "0.30"
pollster = "*"
env_logger = "*"
log = "*"
anyhow = "*"
serde = { version = "1", features = ["derive"] }
serde-lexpr = "*"
