[package]
name = "bae_gen"
version = "0.14.0"
edition = "2021"
publish = false

[dependencies]
lazy_static = "1"
rand = "0.8"
