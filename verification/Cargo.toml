[package]
name = "plugin_scaffold"
version = "0.1.0"
edition = "2021"
publish = false

[dependencies]
anyhow = "=1.0.104"
rust-embed = { version = "=8.13.0", features = ["interpolate-folder-path"] }
toml = "=1.1.8"
