[package]
name = "scene_config"
version = "0.1.0"
edition = "2021"
publish = false

[dependencies]
regex = "=1.13.1"
toml = { version = "=0.8.23", features = ["preserve_order"] }
