[package]
name = "syncr"
version = "0.1.0"
edition = "2021"
publish = false

[dependencies]
aeon = "*"
aeon_derive = "*"
globber = "*"
