[package]
name = "debug_lines"
version = "0.1.0"
edition = "2021"
publish = false

[dependencies]
failure = "*"
gl = "*"
nalgebra = "0.30"
ncollide3d = "*"
