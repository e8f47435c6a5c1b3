[package]
name = "glot"
version = "0.1.0"
edition = "2021"
publish = false

[dependencies]
anyhow = "1"
clap = { version = "4", features = ["derive"] }
colored = "*"
serde_json = "1"
swc_common = "*"
swc_ecma_ast = "*"
swc_ecma_visit = "*"
swc_ecma_parser = "*"
unicode-width = "*"
