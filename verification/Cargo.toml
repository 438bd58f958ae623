[package]
name = "pathtracer"
version = "0.1.0"
edition = "2021"
publish = false

[dependencies]
fastrand = "1"
pixels = "0.11"
winit = "0.27"
winit_input_helper = "0.13"
