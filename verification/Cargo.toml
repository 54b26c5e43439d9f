[package]
name = "doc_spelling_ls"
version = "0.1.0"
edition = "2021"
publish = false

[dependencies]
anyhow = "1"
async-trait = "0.1"
crossbeam-channel = "0.5"
directories = "*"
env_logger = "*"
futures = "0.3"
languagetool-rust = "*"
libloading = "0.8"
log = "0.4"
lsp-server = "0.7"
lsp-types = "*"
portpicker = "0.1"
pulldown-cmark = { version = "0.12", default-features = false }
serde = { version = "1", features = ["derive"] }
serde_json = "1"
tokio = { version = "1", features = ["full"] }
tree-sitter = "0.22"
zip = "*"
