[package]
name = "sel4-rs"
version = "0.1.0"
edition = "2021"
publish = false

[dependencies]
anyhow = "=1.0.104"
elf = "=0.7.4"
fdt = "=0.1.5"

[dev-dependencies]
proc-macro2 = "=1.0.107"
quote = "=1.0.47"
