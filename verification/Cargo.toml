[package]
name = "ananse"
version = "0.1.0"
edition = "2021"
publish = false

[dependencies]
wasmparser = "*"
wat = "*"
clap = { version = "4", features = ["derive"] }
thiserror = "2"
p3-goldilocks = "*"
p3-field = "*"
