[package]
name = "rate-limits"
version = "0.1.0"
edition = "2021"
publish = false

[dependencies]
headers = "*"
time = { version = "*", features = ["parsing"] }
