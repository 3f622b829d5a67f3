[package]
name = "union_validator"
version = "0.1.0"
edition = "2021"
publish = false

[dependencies]
smallvec = "1"
pyo3 = { version = "0.23", features = ["extension-module", "abi3-py39"] }
