[package]
name = "starsim"
version = "0.1.0"
edition = "2021"
publish = false

[dependencies]
rand = "*"
rand_core = "*"
rand_xorshift = "*"
