[package]
name = "neunet"
version = "0.1.0"
edition = "2021"
publish = false

[dependencies]
nalgebra = "0.32"
rand_pcg = "0.3"
rand_distr = "0.4"
serde_json = "1"
