[package]
name = "rust_try_lib"
version = "0.1.0"
edition = "2021"
publish = false

[dependencies]
winit = "=0.26.1"
wgpu = "=0.12.0"
raw-window-handle = "=0.4.3"
ash = "0.37"
ash-window = "0.10"
cgmath = "=0.18.0"
bytemuck = { version = "=1.25.2", features = ["derive"] }
lazy_static = "=1.5.1"
pollster = "=0.2.5"
env_logger = "=0.9.3"
