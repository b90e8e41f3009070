[package]
name = "onmf"
version = "0.1.0"
edition = "2021"
publish = false

[dependencies]
rand = "0.3"
image = { version = "0.25", default-features = false, features = ["png"] }
