[package]
name = "bytecode_compiler"
version = "0.1.0"
edition = "2021"
publish = false

[dependencies]
anyhow = "1"
inkwell = { version = "0.2.0", features = ["llvm15-0"] }
