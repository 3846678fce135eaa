[package]
name = "resolver_env"
version = "0.1.0"
edition = "2021"
rust-version = "1.95"
publish = false

[dependencies]
uv-pep508 = "=0.0.65"
uv-pypi-types = "=0.0.65"
