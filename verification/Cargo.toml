[package]
name = "fixedgl"
version = "0.1.0"
edition = "2021"
publish = false

[dependencies]
image = { version = "0.23", default-features = false, features = ["png"] }
gltf = "0.15"
glutin = "0.26"
