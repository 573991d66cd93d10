[package]
name = "retro_rl"
version = "0.1.0"
edition = "2021"
publish = false

[dependencies]
arraydeque = "=0.5.1"
rand = "=0.9.5"
image = { version = "=0.25.10", default-features = false }
flate2 = "=1.1.10"
serde_json = "=1.0.154"
burn = { version = "0.14", default-features = false, features = ["std", "wgpu", "autodiff", "train"] }
