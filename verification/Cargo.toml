[package]
name = "insertion_bench"
version = "0.1.0"
edition = "2021"
publish = false

[dependencies]
ahash = "0.8"
rand = "0.8"
rand_chacha = "0.3"
