[package]
name = "gatenet"
version = "0.1.0"
edition = "2021"
publish = false

[dependencies]
ark-bn254 = "*"
ark-ff = "*"

[dev-dependencies]
ark-std = "*"
num-bigint = "*"
