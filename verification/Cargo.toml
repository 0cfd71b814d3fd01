[package]
name = "voxel_mesh"
version = "0.1.0"
edition = "2021"
publish = false

[dependencies]
bytemuck = "1"
glam = "0.24"
hematite-nbt = "0.5"
indexmap = "2"
internment = { version = "0.7", features = ["serde"] }
itertools = "0.10"
miniquad = "0.3"
png_pong = "0.8"
serde = { version = "1", features = ["derive"] }

[dev-dependencies]
flate2 = "1"
