[package]
name = "tinyinst"
version = "0.1.0"
edition = "2021"
publish = false

[dependencies]
cxx = "*"
