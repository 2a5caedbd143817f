[package]
name = "syrillian"
version = "0.1.0"
edition = "2021"
publish = false

[dependencies]
slotmap = "=1.1.1"
obj = "=0.10.2"
image = { version = "=0.25.10", default-features = false, features = ["png", "hdr", "jpeg"] }
winit = "=0.30.13"
gltf = { version = "=1.4.1", features = ["extras"] }
font-kit = "=0.14.3"
serde_json = "=1.0.154"
ttf-parser = "=0.25.1"
