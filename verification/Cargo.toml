[package]
name = "rpios"
version = "0.1.0"
edition = "2021"
publish = false

[dependencies]
tock-registers = "=0.8.1"
cortex-a = { version = "=8.1.1", default-features = false }
