[package]
name = "vinox"
version = "0.1.0"
edition = "2021"
publish = false

[dependencies]
base64 = "*"
noise = "=0.9.0"
