[package]
name = "mapgen"
version = "0.1.0"
edition = "2021"
publish = false

[dependencies]
delaunator = "*"
noise = "*"
rand_chacha = "*"
