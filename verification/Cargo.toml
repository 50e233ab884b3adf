[package]
name = "bn254_msm"
version = "0.1.0"
edition = "2021"
publish = false

[dependencies]
ark-bn254 = "0.4"
ark-ec = "0.4"
ark-ff = "0.4"

[dev-dependencies]
ark-serialize = "0.4"
ark-std = "0.4"
