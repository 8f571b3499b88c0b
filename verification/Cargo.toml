[package]
name = "mesh"
version = "0.1.0"
edition = "2021"
publish = false

[dependencies]
getopts = "0.2"
nalgebra = { version = "*", default-features = false, features = ["std"] }
