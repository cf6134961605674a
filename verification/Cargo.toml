[package]
name = "perf_ring"
version = "0.1.0"
edition = "2021"
publish = false

[dependencies]
bytes = "1"
libc = "0.2"
thiserror = "1"
