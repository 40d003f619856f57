[package]
name = "block_world"
version = "0.1.0"
edition = "2021"
publish = false

[dependencies]
rand = "=0.8.8"
noise = "=0.7.0"
threadpool = "=1.8.1"
binary_rw = "=1.3.3"
nalgebra-glm = "=0.21.0"
