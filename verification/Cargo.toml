[package]
name = "k210_hal"
version = "0.1.0"
edition = "2021"
publish = false

[dependencies]
embedded-hal = "=1.0.0-alpha.1"
nb = "1"
riscv = "*"
