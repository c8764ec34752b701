[package]
name = "pyshell"
version = "0.1.0"
edition = "2021"
publish = false

[dependencies]
ruff_python_parser = "=0.0.8"
ruff_python_ast = "=0.0.8"
anstyle = "=1.0.14"
rustyline = "=18.0.1"
pyo3 = "=0.29.3"
kdam = "=0.6.4"
thiserror = "=2.0.21"
