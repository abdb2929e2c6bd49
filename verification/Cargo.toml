[package]
name = "hdpath"
version = "0.1.0"
edition = "2021"
publish = false

[dependencies]
byteorder = "1"
bitcoin = "0.32"

[dev-dependencies]
rand = "0.7"
