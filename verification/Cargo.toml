[package]
name = "citra_engine"
version = "0.1.0"
edition = "2021"
publish = false

[dependencies]
serde = { version = "1", features = ["derive"] }
simd-json = "0.17"
gltf-json = "1.4"
glam = { version = "0.30", features = ["serde"] }
lazy_static = "1"
wgpu = "27"
winit = "0.30"
