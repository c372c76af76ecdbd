[package]
name = "circuit_sim"
version = "0.1.0"
edition = "2021"
publish = false

[dependencies]
rulinalg = { version = "0.4", default-features = false }
specs = "0.8"
