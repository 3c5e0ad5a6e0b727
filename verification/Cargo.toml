[package]
name = "wgpu_pbr"
version = "0.1.0"
edition = "2021"
publish = false

[dependencies]
uuid = { version = "1", features = ["v4"] }
image = { version = "0.25", default-features = false, features = ["png", "jpeg"] }
rand = "0.8"
cgmath = "0.18"
lazy_static = "1"
bytemuck = "1"
