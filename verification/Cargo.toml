[package]
name = "tsls"
version = "0.1.0"
edition = "2021"
publish = false

[dependencies]
tree-sitter = "=0.20.10"
tree-sitter-c = "=0.20.8"
tree-sitter-cpp = "=0.20.5"
tree-sitter-rust = "=0.20.4"
tree-sitter-python = "=0.20.4"
tree-sitter-javascript = "=0.20.4"
tree-sitter-typescript = "=0.20.5"
tree-sitter-go = "=0.20.0"
tree-sitter-kotlin = "=0.2.11"
tree-sitter-glsl = "=0.1.8"
tree-sitter-hare = "=0.20.7"
tree-sitter-cuda = ">=0.20.0, <0.20.5"
tree-sitter-query = "=0.1.0"
lsp-server = "=0.10.0"
lsp-types = "=0.97.0"
serde_json = "=1.0.151"
log = "=0.4.34"
clap = { version = "=4.6.7", features = ["derive"] }
flexi_logger = "=0.31.10"
