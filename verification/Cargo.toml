[package]
name = "gifstack"
version = "0.1.0"
edition = "2021"
publish = false

[dependencies]
gif = "*"
atty = "*"
