[package]
name = "horizon"
version = "0.1.0"
edition = "2021"
publish = false

[dependencies]
regex = "1"
py_literal = "*"
codespan-reporting = "*"
convert_case = "*"
clap = { version = "*", features = ["derive"] }
walkdir = "*"
toml = "*"
