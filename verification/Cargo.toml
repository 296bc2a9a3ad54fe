[package]
name = "shape_sandbox"
version = "0.1.0"
edition = "2021"
publish = false

[dependencies]
sdl2 = "0.35"
bmp = "0.5"
crossbeam = "0.8"
bresenham = "0.1"
