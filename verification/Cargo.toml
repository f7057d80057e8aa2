[package]
name = "unicode_blocks"
version = "0.1.0"
edition = "2021"
publish = false

[dependencies]
ureq = "2"
async-std = "1"
