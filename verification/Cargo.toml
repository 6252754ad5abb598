[package]
name = "wstp"
version = "0.2.8"
edition = "2021"
publish = false

[dependencies]
wolfram-expr = "=0.1.4"
once_cell = "=1.21.4"

[dev-dependencies]
rand = "0.8"
