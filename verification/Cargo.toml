[package]
name = "eca1d"
version = "0.1.0"
edition = "2021"
publish = false

[dependencies]
clap = "2"
rand = "0.8"
terminal_size = "*"
