[package]
name = "frozen_map"
version = "0.1.0"
edition = "2021"
publish = false

[dependencies]
ph = { version = "*", default-features = false }
