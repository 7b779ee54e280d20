[package]
name = "solar_renderer"
version = "0.1.0"
edition = "2021"
publish = false

[dependencies]
raylib = "*"
rand = "0.8"
rayon = "1"
num_cpus = "1"
tobj = "4"
