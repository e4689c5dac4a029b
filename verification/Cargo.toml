[package]
name = "countdown"
version = "0.1.0"
edition = "2021"
publish = false

[dependencies]
anyhow = "1"
ldtk_easy = "*"
raylib = "3.7"
