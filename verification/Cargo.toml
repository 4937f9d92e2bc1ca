[package]
name = "rite"
version = "0.1.0"
edition = "2021"
publish = false

[dependencies]
multiboot2 = "=0.28.0"
spin = "=0.12.3"
cpuio = "=0.2.0"
rlibc = "=1.0.0"
