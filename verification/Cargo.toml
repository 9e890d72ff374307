[package]
name = "flow"
version = "0.1.0"
edition = "2021"
publish = false

[dependencies]
regex = "=1.13.1"
unicode-width = "=0.1.14"
toml = "=0.8.23"
getopts = "0.2"
