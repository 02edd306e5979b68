[package]
name = "error_boundary"
version = "0.1.0"
edition = "2021"
publish = false

[dependencies]
futures = "*"
