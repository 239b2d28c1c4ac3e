[package]
name = "img2jx"
version = "0.1.0"
edition = "2021"
publish = false

[dependencies]
anyhow = "1"
bytemuck = "1"
clap = { version = "4", features = ["derive"] }
image = "0.25"
pollster = "0.3"
rayon = "1"
serde = { version = "1", features = ["derive"] }
serde_json = "1"
thiserror = "1"
wgpu = "22"
