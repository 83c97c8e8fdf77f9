[package]
name = "openft"
version = "0.1.0"
edition = "2021"
publish = false

[dependencies]
roxmltree = "*"
encoding_rs = "*"
obj-pool = "*"
macroquad = "*"
bmp = "*"
