[package]
name = "n_orbital"
version = "0.1.0"
edition = "2021"
publish = false

[dependencies]
itertools = "0.10"
nalgebra = "0.32"
csv = "1"
