[package]
name = "svg_bench"
version = "0.1.0"
edition = "2021"
publish = false

[dependencies]
lyon = "=0.9.1"
lyon_svg = "=0.9.0"
clap = "=2.34.0"
glium = "0.36"
