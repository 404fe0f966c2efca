[package]
name = "difbuilder"
version = "0.1.0"
edition = "2021"

[dependencies]
bytes = "1"
cgmath = "0.18"
nalgebra = "*"
rand = "0.8"
