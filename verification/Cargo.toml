[package]
name = "gif_level"
version = "0.1.0"
edition = "2021"
publish = false

[dependencies]
i-wanna-build = "*"
image = "*"
gif = "*"
