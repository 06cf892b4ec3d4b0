[package]
name = "tailwind_literal"
version = "0.1.0"
edition = "2021"
publish = false

[dependencies]
nom = "7"
itertools = "*"
swc_core = { version = "*", features = ["ecma_ast", "common"] }
thiserror = "*"
