[package]
name = "krec"
version = "0.1.0"
edition = "2021"
publish = false

[dependencies]
pyo3 = { version = "0.19", features = ["extension-module"] }
tracing = "0.1"
