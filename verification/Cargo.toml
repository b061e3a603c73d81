[package]
name = "uwu"
version = "0.1.0"
edition = "2021"
publish = false

[dependencies]
ahash = "*"
linkify = "*"
getrandom = "0.2"
