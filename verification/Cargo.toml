[package]
name = "lowpoly"
version = "0.1.0"
edition = "2021"
publish = false

[dependencies]
spade = "=1.8.2"
svg = "*"
image = { version = "0.24", default-features = false, features = ["png", "jpeg"] }
