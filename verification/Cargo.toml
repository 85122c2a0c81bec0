[package]
name = "fadfada"
version = "0.1.0"
edition = "2021"
publish = false

[dependencies]
hex = "*"
sha2 = "*"
url = "*"
yaml-rust = "*"
