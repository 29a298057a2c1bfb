[package]
name = "genio"
version = "0.1.0"
edition = "2021"
publish = false

[dependencies]
byteorder = "1"
void = "1"
possibly_uninit = "*"
