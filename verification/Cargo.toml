[package]
name = "rethink"
version = "0.1.0"
edition = "2021"
publish = false

[dependencies]
byteorder = "1.5"
rustc-serialize = "=0.3.25"
