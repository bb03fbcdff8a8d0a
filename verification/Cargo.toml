[package]
name = "brill"
version = "0.1.0"
edition = "2021"
publish = false

[dependencies]
cozy-chess = "*"
text_io = "*"
