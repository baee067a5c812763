[package]
name = "editor_core"
version = "0.1.0"
edition = "2021"
publish = false

[dependencies]
ropey = { version = "1.6", default-features = false, features = ["simd"] }
regex = "1"
diffy = "0.3"
tree-sitter = "0.20"
tree-sitter-traversal = "0.1"
tree-sitter-rust = "0.20"
tree-sitter-md = "0.1"
itertools = "0.11"
unicode-width = "0.1"
crossterm = "0.27"
anyhow = "1"
lsp-types = "0.94"
grep-regex = "0.1"
grep-searcher = "0.1"
ignore = "0.4"
log = "0.4"
