[package]
name = "tiny_soft_renderer"
version = "0.1.0"
edition = "2021"
publish = false

[dependencies]
rand = "0.8"
anyhow = "1"
tobj = "4"
image = { version = "0.24", default-features = false, features = ["tga"] }
