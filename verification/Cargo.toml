[package]
name = "perlin"
version = "0.1.0"
edition = "2021"
publish = false

[dependencies]
rand = "0.8"
rand_chacha = "0.3"
ndarray = "0.15"
image = { version = "0.24", default-features = false, features = ["png"] }
