[package]
name = "lrr_230pro_can_driver"
version = "0.1.0"
edition = "2021"
publish = false

[dependencies]
anyhow = "*"
socketcan = "*"
