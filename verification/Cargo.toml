[package]
name = "deferred_renderer"
version = "0.1.0"
edition = "2021"
publish = false

[dependencies]
anyhow = "*"
glam = "*"
gltf = "*"
ordered-float = "*"
wgpu = "*"
winit = "*"
