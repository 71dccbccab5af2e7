[package]
name = "arxide"
version = "0.1.0"
edition = "2021"

[dependencies]
hex = "0.4"
md-5 = "0.10"
