[package]
name = "lint_engine"
version = "0.1.0"
edition = "2021"
publish = false

[dependencies]
swc_ecmascript = { version = "*", features = ["parser"] }
swc_common = "*"
