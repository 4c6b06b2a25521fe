[package]
name = "editor"
version = "0.1.0"
edition = "2021"
publish = false

[dependencies]
regex = "1"
simple-error = "0.3"
tree-sitter-highlight = "0.20"
tree-sitter-rust = "0.20"
tree-sitter-python = "0.20"
