[package]
name = "condition_transform"
version = "0.1.0"
edition = "2021"
publish = false

[dependencies]
serde = { version = "*", features = ["derive"] }
swc_core = { version = "*", default-features = false, features = ["ecma_ast", "ecma_visit", "common"] }
