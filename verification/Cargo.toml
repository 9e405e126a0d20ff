[package]
name = "neural_network"
version = "0.1.0"
edition = "2021"
publish = false

[dependencies]
rustc_apfloat = "0.2"
rand = "0.8"

[dev-dependencies]
rand_chacha = "0.3"
