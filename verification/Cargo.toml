[package]
name = "engine"
version = "0.1.0"
edition = "2021"
publish = false

[dependencies]
anyhow = "=1.0.104"
bevy_ecs = "=0.16.1"
gl = "=0.14.0"
glam = "=0.29.3"
glutin = "=0.32.3"
glutin-winit = "=0.5.0"
nalgebra-glm = "=0.19.0"
num-traits = "=0.2.19"
nutype = "=0.5.1"
obj-rs = "0.7"
raw-window-handle = "=0.6.2"
serde = { version = "=1.0.229", features = ["derive"] }
serde_json = "=1.0.154"
stb_image = "=0.3.0"
tracing = "=0.1.44"
tracing-subscriber = "=0.3.23"
winit = "=0.30.13"
