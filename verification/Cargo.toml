[package]
name = "gobject_lint"
version = "0.1.0"
edition = "2021"
publish = false

[dependencies]
anyhow = "*"
globset = "*"
indicatif = "*"
serde = { version = "*", features = ["derive"] }
tokio = { version = "*", features = ["macros", "rt-multi-thread", "io-std", "sync"] }
tower-lsp = "*"
tree-sitter = "*"
tree-sitter-c = "*"
walkdir = "*"
