[package]
name = "sugarcube"
version = "0.1.0"
edition = "2021"
publish = false

[dependencies]
anyhow = "=1.0.104"
clap = { version = "=4.6.7", features = ["derive"] }
serde = { version = "=1.0.229", features = ["derive"] }
serde_json = "=1.0.151"
swc_common = "=26.0.0"
swc_ecma_ast = { version = "=29.0.2", features = ["serde-impl"] }
swc_ecma_codegen = "=32.0.3"
swc_ecma_parser = "=46.0.0"
swc_ecma_visit = "=29.0.0"
