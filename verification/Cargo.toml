[package]
name = "columnar"
version = "0.1.0"
edition = "2021"
publish = false

[dependencies]
packed_simd = "=0.3.8"
