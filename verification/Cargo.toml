[package]
name = "hexx"
version = "0.21.0"
edition = "2021"
publish = false

[dependencies]
glam = "=0.30.10"
wide = "*"
