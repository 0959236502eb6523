[package]
name = "nxt"
version = "0.1.0"
edition = "2021"
publish = false

[dependencies]
directories = "=6.0.0"
rnix = "=0.14.0"
rowan = "=0.16.1"
