[package]
name = "kas"
version = "0.1.0"
edition = "2021"
publish = false

[dependencies]
clipboard = "0.5"
log = "0.4"
wgpu = "*"
winit = "*"
