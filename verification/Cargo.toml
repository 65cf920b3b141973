[package]
name = "vinox_voxel"
version = "0.1.0"
edition = "2021"
publish = false

[dependencies]
glam = "*"
mint = "*"
serde = { version = "1", features = ["derive"] }
