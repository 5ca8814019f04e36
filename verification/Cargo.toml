[package]
name = "idasen"
version = "0.1.0"
edition = "2021"
publish = false

[dependencies]
btleplug = "0.5"
indicatif = "0.17"
