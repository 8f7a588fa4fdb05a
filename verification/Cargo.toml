[package]
name = "ceaser"
version = "0.1.0"
edition = "2021"
publish = false

[dependencies]
ash = "0.37"
ash-window = "0.12"
gpu-allocator = "0.25"
winit = "0.28"
nalgebra = "0.32"
raw-window-handle = "0.5"
