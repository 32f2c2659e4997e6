[package]
name = "indirect_batch"
version = "0.1.0"
edition = "2021"
publish = false

[dependencies]
genmesh = "*"
glam = "*"
bytemuck = { version = "*", features = ["derive"] }
