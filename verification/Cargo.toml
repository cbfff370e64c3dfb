[package]
name = "vagga"
version = "0.1.0"
edition = "2021"
publish = false

[dependencies]
shaman = "=0.1.0"
libc = "=0.2.190"
