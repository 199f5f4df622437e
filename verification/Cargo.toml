[package]
name = "malm_engine"
version = "0.1.0"
edition = "2021"
publish = false

[dependencies]
getrandom = "0.3"
hex = "0.4"
libc = "0.2"
lzma-rs = "0.3"
rustix = { version = "1", features = ["fs", "process"] }
thiserror = "2"
