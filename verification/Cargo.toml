[package]
name = "colorant"
version = "0.1.0"
edition = "2021"
publish = false

[dependencies]
anyhow = "*"
log = "*"

[dependencies.image]
version = "*"
default-features = false
