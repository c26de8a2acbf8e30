[package]
name = "mclone"
version = "0.1.0"
edition = "2021"
publish = false

[dependencies]
rand = "=0.8.8"
wgpu = "22"
winit = "0.30"
glam = "0.29"
bytemuck = { version = "1", features = ["derive"] }
tokio = { version = "1", features = ["rt"] }
anyhow = "1"
tracing = "0.1"
tracing-subscriber = "0.3"
ahash = "0.8"
