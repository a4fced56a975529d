[package]
name = "vm32"
version = "0.1.0"
edition = "2021"
publish = false

[dependencies]
rand = "0.8"
colored = "2"
macroquad = "0.3"
