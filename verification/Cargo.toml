[package]
name = "hotspots"
version = "0.1.0"
edition = "2021"
publish = false

[dependencies]
tree-sitter = "0.20"
tree-sitter-go = "0.20"
tree-sitter-rust = "0.20"
tree-sitter-lua = "0.0"
detect-lang = "0.1"
grep-matcher = "0.1"
grep-regex = "0.1"
grep-searcher = "0.1"
walkdir = "2"
rayon = "1"
indicatif = "0.17"
prettytable-rs = "0.10"
structopt = "0.3"
anyhow = "1"
env_logger = "0.10"
log = "0.4"
thiserror = "1"
