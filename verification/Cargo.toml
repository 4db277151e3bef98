[package]
name = "ir_core"
version = "0.1.0"
edition = "2021"
publish = false

[dependencies]
half = "2"
memmap2 = "0.9"
rand = "0.8"
thiserror = "1"
