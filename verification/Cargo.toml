[package]
name = "reentry_game"
version = "0.1.0"
edition = "2021"
publish = false

[dependencies]
revm = "=3.1.0"
revm-interpreter = "=1.1.2"
revm-precompile = "=2.0.3"
revm-primitives = "=1.1.2"
hex = "=0.4.3"
rand = "=0.8.8"
