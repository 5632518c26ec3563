[package]
name = "nme_core"
version = "0.1.0"
edition = "2021"
publish = false

[dependencies]
unicode-width = "=0.2.3"
rustpython-parser = "0.3"
