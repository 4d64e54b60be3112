[package]
name = "fizix"
version = "0.1.0"
edition = "2021"
publish = false

[dependencies]
itertools = "0.13"
nalgebra = "0.33"
