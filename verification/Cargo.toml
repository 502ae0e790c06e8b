[package]
name = "png_chunk"
version = "0.1.0"
edition = "2021"
publish = false

[dependencies]
crc = "1.8"
