[package]
name = "fast_atari_rs"
version = "0.1.0"
edition = "2021"
publish = false

[dependencies]
cudarc = { version = "=0.12.1", default-features = false, features = ["std", "driver", "nvrtc", "cuda-12040"] }
