[package]
name = "rpi-imgpatcher"
version = "0.1.0"
edition = "2021"
publish = false

[dependencies]
mbrman = "*"
tempfile = "3"
fatfs = "0.3"
fscommon = "0.1"
lzma-rust2 = "*"
libc = "0.2"
