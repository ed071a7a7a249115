[package]
name = "engine2d"
version = "0.1.0"
edition = "2021"
publish = false

[dependencies]
rand = "0.8"
pixels = "0.2"
winit = "0.24"
winit_input_helper = "0.9"
rodio = "0.13"
serde = { version = "1", features = ["derive"] }
serde_json = "1"
image = { version = "0.23", default-features = false, features = ["png"] }
