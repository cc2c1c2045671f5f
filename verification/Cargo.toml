[package]
name = "engine_rust"
version = "0.1.0"
edition = "2021"
publish = false

[dependencies]
chrono = "0.4"
pyo3 = { version = "0.21", features = ["extension-module", "abi3-py38"] }
