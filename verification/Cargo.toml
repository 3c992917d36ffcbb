[package]
name = "gpu_fill"
version = "0.1.0"
edition = "2021"
publish = false

[dependencies]
anyhow = "1"
ash = "0.38"
gpu-allocator = "0.27"
image = "0.24"
rand = "0.8"
