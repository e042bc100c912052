[package]
name = "config_struct"
version = "0.1.0"
edition = "2021"
publish = false

[dependencies]
ron = "*"
toml = "*"
serde_yaml = "*"
