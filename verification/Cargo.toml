[package]
name = "sitegen"
version = "0.1.0"
edition = "2021"
publish = false

[dependencies]
markdown = "*"
serde_yaml = "*"
tera = "*"
