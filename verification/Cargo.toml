[package]
name = "motor"
version = "0.1.0"
edition = "2021"
publish = false

[dependencies]
asset-importer = "*"
gl = "*"
image = { version = "*", default-features = false, features = ["png", "jpeg", "bmp", "tga"] }
itertools = "*"
nalgebra-glm = "*"
sdl2 = "*"
