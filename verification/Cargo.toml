[package]
name = "tokenpress"
version = "0.1.0"
edition = "2021"
publish = false

[dependencies]
tiktoken-rs = "=0.12.1"
oxc_allocator = "=0.143.0"
oxc_ast = "=0.143.0"
oxc_parser = "=0.143.0"
oxc_span = "=0.143.0"
oxc_codegen = "=0.143.0"
tree-sitter = "=0.27.1"
tree-sitter-go = "=0.25.0"
tree-sitter-java = "=0.23.5"
tree-sitter-c-sharp = "=0.23.5"
serde = { version = "=1.0.229", features = ["derive"] }
toml = "=1.1.8"
clap = { version = "=4.6.7", features = ["derive"] }
similar = "=3.2.1"
ignore = "=0.4.34"
