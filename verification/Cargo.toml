[package]
name = "bulletou"
version = "0.1.0"
edition = "2021"
publish = false

[dependencies]
bulletformat = "*"
anyhow = "1"
structopt = "0.3"
