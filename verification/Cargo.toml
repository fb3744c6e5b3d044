[package]
name = "findcode"
version = "0.1.0"
edition = "2021"

[dependencies]
rabbitizer = "*"
argh = "*"
parse_int = "*"
rayon = "*"
dashmap = "*"
rustc-hash = "*"
