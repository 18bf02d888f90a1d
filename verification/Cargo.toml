[package]
name = "sexpr_layout"
version = "0.1.0"
edition = "2021"
publish = false

[dependencies]
raylib-ffi = "*"
libloading = "*"
