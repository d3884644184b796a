[package]
name = "timesync"
version = "0.1.0"
edition = "2021"
publish = false

[dependencies]
anyhow = "1"
libc = "0.2"
once_cell = "1"
libbpf-rs = "0.24"
