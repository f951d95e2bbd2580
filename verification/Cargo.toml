[package]
name = "sun_sky"
version = "0.1.0"
edition = "2021"
publish = false

[dependencies]
fixed = "=1.31.0"
cordic = "=0.1.5"
