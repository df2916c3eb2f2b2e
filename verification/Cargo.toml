[package]
name = "rizz_v"
version = "0.1.0"
edition = "2021"
publish = false

[dependencies]
anyhow = "*"
codespan-reporting = "*"
colored = "*"
itertools = "*"
term_size = "*"
termion = "*"
