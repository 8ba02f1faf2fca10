[package]
name = "nufish-core"
version = "0.1.0"
edition = "2021"
publish = false

[dependencies]
rustc_apfloat = "*"
libm = "0.2"
bytemuck = "1"
rand = "0.8"
