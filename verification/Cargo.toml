[package]
name = "pointpca2"
version = "0.1.0"
edition = "2021"
publish = false

[dependencies]
kd-tree = { version = "*", features = ["rayon"] }
libm = "*"
nalgebra = "*"
ply-rs = "*"
rayon = "*"
