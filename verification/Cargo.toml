[package]
name = "nes_runtime"
version = "0.1.0"
edition = "2021"
publish = false

[dependencies]
log = "0.4"
pixels = "0.13"
winit = "0.28"
