[package]
name = "zydeco_lang"
version = "0.2.0"
edition = "2021"
publish = false

[dependencies]
im = "15.1"
