[package]
name = "rulec"
version = "0.1.0"
edition = "2021"
publish = false

[dependencies]
walrus = "=0.27.2"
wasmtime = "=48.0.5"
