[package]
name = "tone"
version = "0.1.0"
edition = "2021"
publish = false

[dependencies]
bytemuck = { version = "1", features = ["derive"] }
image = "0.25"
pollster = "0.4"
serde = { version = "1", features = ["derive"] }
wgpu = "23"
