[package]
name = "zstandard"
version = "0.1.0"
edition = "2021"
publish = false

[dependencies]
pyo3 = "*"
zstd-safe = { version = "*", features = ["experimental", "std"] }
zstd-sys = { version = "*", features = ["experimental"] }
