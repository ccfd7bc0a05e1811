[package]
name = "pebble"
version = "0.1.0"
edition = "2021"
publish = false

[dependencies]
bytemuck = "=1.25.2"
half = "=2.7.1"
hecs = "=0.11.2"
image = { version = "=0.25.10", default-features = false, features = ["png", "jpeg", "bmp", "tga"] }
tracing = "=0.1.44"
tracing-subscriber = "=0.3.23"
wgpu = { version = "=30.0.1", default-features = false, features = ["std", "vulkan", "wgsl"] }
winit = { version = "=0.30.13", default-features = false, features = ["rwh_06", "x11"] }
winit_input_helper = "=0.17.0"
