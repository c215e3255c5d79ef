[package]
name = "fem_comp"
version = "0.1.0"
edition = "2021"
publish = false

[dependencies]
calamine = "*"
nalgebra = "*"
nalgebra-sparse = "*"
raylib = "3.7"
nfd = "*"
