[package]
name = "rosrust_image"
version = "0.1.0"
edition = "2021"
publish = false

[dependencies]
byteorder = "1"
crossbeam-channel = "0.5"
env_logger = "0.8"
image = { version = "0.23", default-features = false, features = ["png", "jpeg", "gif", "bmp"] }
pixels = "0.2"
rosrust = "0.9"
rosrust_msg = "0.1"
winit = "0.24"
winit_input_helper = "0.9"
