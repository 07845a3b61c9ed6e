[package]
name = "occt_wasm"
version = "0.1.0"
edition = "2021"
rust-version = "1.95"
publish = false

[dependencies]
wasmtime = "=47.0.4"
brotli = "=9.1.1"
