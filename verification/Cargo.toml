[package]
name = "logcat_parser"
version = "0.1.0"
edition = "2021"
publish = false

[dependencies]
regex = "1"
once_cell = "1"
pyo3 = "0.22"
