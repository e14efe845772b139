[package]
name = "xor"
version = "0.1.0"
edition = "2021"
publish = false

[dependencies]
getrandom = "0.3"
miniz_oxide = "0.8"
ntex = "~3.12"
ntex-httparse = ">=2.1.0, <2.3.0"
