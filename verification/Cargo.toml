[package]
name = "amaryllis"
version = "0.1.0"
edition = "2021"
publish = false

[dependencies]
colorgrad = "0.6"
image = "0.24"
imageproc = "0.23"
noise = "0.8"
rand = "0.8"
rusttype = "0.9"
