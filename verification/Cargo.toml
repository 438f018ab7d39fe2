[package]
name = "typescript"
version = "0.1.0"
edition = "2021"
publish = false

[dependencies]
sha2 = "0.10"
libc = "0.2"
num_cpus = "1"
lazy_static = "1"
