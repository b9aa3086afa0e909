[package]
name = "textify"
version = "0.1.0"
edition = "2021"
publish = false

[dependencies]
image = "0.24"
imageproc = "0.23"
rusttype = "0.9"
fast_image_resize = "2"
