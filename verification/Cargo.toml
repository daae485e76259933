[package]
name = "terra"
version = "0.1.0"
edition = "2021"
publish = false

[dependencies]
bytemuck = "1"
glow = "0.14"
glutin = "0.32"
glutin-winit = "0.5"
winit = "0.30"
log = "0.4"
pretty_env_logger = "0.5"
