[package]
name = "cgrep"
version = "0.1.0"
edition = "2021"
publish = false

[dependencies]
anyhow = "1"
blake3 = "1"
clap = { version = "4", features = ["derive"] }
clap_complete = "4"
colored = "*"
dirs = "*"
ignore = "0.4"
indicatif = "*"
memmap2 = "*"
notify = "*"
once_cell = "1"
rayon = "1"
regex = "1"
rusqlite = { version = "*", features = ["bundled"] }
serde = { version = "1", features = ["derive"] }
serde_json = "1"
tantivy = "*"
toml = "*"
tracing-subscriber = { version = "*", features = ["env-filter", "fmt"] }
tree-sitter = "*"
tree-sitter-c = "*"
tree-sitter-cpp = "*"
tree-sitter-go = "*"
tree-sitter-java = "*"
tree-sitter-javascript = "*"
tree-sitter-python = "*"
tree-sitter-ruby = "*"
tree-sitter-rust = "*"
tree-sitter-typescript = "*"

[dev-dependencies]
tempfile = "3"
