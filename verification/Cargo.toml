[package]
name = "curve_batch"
version = "0.1.0"
edition = "2021"
publish = false

[dependencies]
pasta_curves = "*"
