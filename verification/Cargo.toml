[package]
name = "froggy_notes"
version = "0.1.0"
edition = "2021"
publish = false

[dependencies]
bdf-parser = "=0.1.0"
env_logger = { version = "=0.11.11", default-features = false }
image = { version = "=0.24.9", default-features = false, features = ["png"] }
winit = { version = "=0.29.15", default-features = false, features = ["x11", "rwh_05"] }
