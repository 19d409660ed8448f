[package]
name = "execution_engine"
version = "0.1.0"
edition = "2021"
publish = false

[dependencies]
parity-wasm = "*"
lazy_static = "1.4"
