[package]
name = "amd_transform"
version = "0.1.0"
edition = "2021"
publish = false

[dependencies]
Inflector = { version = "0.11", default-features = false }
fxhash = "0.2"
serde = { version = "1", features = ["derive"] }
swc_common = "*"
