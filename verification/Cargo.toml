[package]
name = "epicycles"
version = "0.1.0"
edition = "2021"
publish = false

[dependencies]
num = "0.4"
rayon = "1"
wasm-bindgen = "0.2"
