[package]
name = "rustup_toolchain"
version = "0.1.0"
edition = "2021"
publish = false

[dependencies]
strsim = "*"
url = "*"
