[package]
name = "pty_bridge"
version = "0.1.0"
edition = "2021"
publish = false

[dependencies]
portable-pty = "0.8"
