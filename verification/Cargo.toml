[package]
name = "smolshim"
version = "0.1.0"
edition = "2021"
publish = false

[dependencies]
smoltcp = "0.11"
lazy_static = "1"
