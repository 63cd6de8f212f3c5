[package]
name = "speedtest_core"
version = "0.1.0"
edition = "2021"
publish = false

[dependencies]
byteorder = "1"
time = "0.1"
