[package]
name = "sdf_text_view"
version = "0.1.0"
edition = "2021"
publish = false

[dependencies]
zerocopy = { version = "=0.7.35", features = ["derive"] }
image = { version = "=0.25.10", default-features = false, features = ["png"] }
getopts = "=0.2.24"
nalgebra = "=0.35.0"
nalgebra-glm = "=0.21.0"
wgpu = { version = "=30.0.1", features = ["glsl", "spirv"] }
log = "=0.4.35"
