[package]
name = "asm-arch"
version = "0.1.0"
edition = "2021"
publish = false

[dependencies]
rv-asm = "*"
portal-pc-asm-common = "*"
