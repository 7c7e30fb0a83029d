[package]
name = "fly_camera"
version = "0.1.0"
edition = "2021"
publish = false

[dependencies]
notan = "=0.12.1"
bytemuck = "=1.25.2"
