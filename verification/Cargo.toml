[package]
name = "tutel"
version = "0.1.0"
edition = "2021"
publish = false

[dependencies]
anyhow = "1"
toml = "0.5"

[dev-dependencies]
tempfile = "3"
