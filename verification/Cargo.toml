[package]
name = "graxus"
version = "0.1.0"
edition = "2021"
publish = false

[dependencies]
anyhow = "=1.0.104"
serde = { version = "=1.0.229", features = ["derive"] }
serde_json = "=1.0.154"
serde_yaml = "=0.9.34"
sha2 = "=0.10.9"
regex = "=1.13.1"
globset = "=0.4.21"
ignore = "=0.4.34"
chrono = "=0.4.45"
semver = "=1.0.28"
tracing = "=0.1.44"
tree-sitter = "=0.27.1"
tree-sitter-rust = "=0.24.2"
tree-sitter-typescript = "=0.23.2"
tree-sitter-c-sharp = "=0.23.5"
tree-sitter-java = "=0.23.5"
tree-sitter-kotlin-ng = "=1.1.0"
tree-sitter-c = "=0.24.2"
tree-sitter-go = "=0.25.0"
tree-sitter-python = "=0.25.0"
tree-sitter-swift = "=0.7.4"
ripex = { version = "=0.3.1", features = ["serde"] }
