[package]
name = "vkxl"
version = "0.1.0"
edition = "2021"
publish = false

[dependencies]
bevy = { version = "0.16", default-features = false, features = ["bevy_pbr"] }
bytemuck = { version = "1", features = ["derive"] }
