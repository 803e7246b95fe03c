[package]
name = "chip8"
version = "0.1.0"
edition = "2021"
publish = false

[dependencies]
rand = "=0.8.8"
time = "=0.3.55"
log = "0.4"
env_logger = "0.10"
pixels = "0.12"
winit = "0.28"
winit_input_helper = "0.14"
