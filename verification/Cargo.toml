[package]
name = "npp"
version = "0.1.0"
edition = "2021"
publish = false

[dependencies]
npp-sys = "*"
rustacuda = "0.1"
