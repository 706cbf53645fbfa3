[package]
name = "mandelbrot"
version = "0.1.0"
edition = "2021"
publish = false

[dependencies]
glium = "0.31"
winit = "0.26"
num-complex = "0.4"
rayon = "1"
