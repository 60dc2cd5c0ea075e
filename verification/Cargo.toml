[package]
name = "toml_describe"
version = "0.1.0"
edition = "2021"
publish = false

[dependencies]
cfg-expr = "*"
semver = "1"
toml = { version = "0.8", features = ["preserve_order"] }
