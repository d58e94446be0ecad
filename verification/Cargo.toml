[package]
name = "kade"
version = "0.1.0"
edition = "2021"
publish = false

[dependencies]
getrandom = "0.2"
rand = "0.8"
wasm-bindgen = "0.2"
