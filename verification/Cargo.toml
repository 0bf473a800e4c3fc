[package]
name = "rustpython_jit"
version = "0.1.0"
edition = "2021"
publish = false

[dependencies]
rustpython-compiler-core = "=0.5.0"
num-traits = "=0.2.19"
malachite-bigint = "*"
thiserror = "=2.0.21"
