[package]
name = "skyrim_cell_dump"
version = "0.1.0"
edition = "2021"
publish = false

[dependencies]
pyo3 = "*"
seahash = "*"
