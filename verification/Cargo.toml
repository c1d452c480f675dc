[package]
name = "tanos"
version = "0.1.0"
edition = "2021"
publish = false

[dependencies]
anyhow = "1"
clap = "4"
tempfile = "3"
toml = "*"
which = "*"
