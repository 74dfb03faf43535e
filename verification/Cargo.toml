[package]
name = "crank"
version = "0.1.0"
edition = "2021"
publish = false

[dependencies]
Inflector = "*"
anyhow = "*"
cargo_metadata = "*"
dirs = "*"
log = "*"
pretty_env_logger = "*"
structopt = "*"
walkdir = "*"
zip = "*"
zip-extensions = "*"
