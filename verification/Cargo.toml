[package]
name = "rust_markdown_lsp"
version = "0.1.0"
edition = "2021"
publish = false

[dependencies]
ropey = "1"
pathdiff = "0.2"
serde = { version = "1", features = ["derive"] }
serde_json = "1"
toml = "0.8"
walkdir = "2"
log = "0.4"
simplelog = "0.12"
