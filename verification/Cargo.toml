[package]
name = "viola"
version = "0.1.0"
edition = "2021"
publish = false

[dependencies]
notko = { version = "=0.0.1", default-features = false }
libc = "=0.2.191"
