[package]
name = "rustic_fourier"
version = "0.1.0"
edition = "2021"
publish = false

[dependencies]
walkdir = "2"
serde = "1"
serde_json = "1"
