[package]
name = "uint7"
version = "0.1.0"
edition = "2021"
publish = false

[dependencies]
speedy = { version = "0.8", default-features = false }
