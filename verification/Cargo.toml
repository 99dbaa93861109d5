[package]
name = "mago_analyzer"
version = "0.1.0"
edition = "2021"
publish = false

[dependencies]
memchr = "=2.8.3"
regex = "=1.13.1"
itoa = "1"
