[package]
name = "bicep_docs"
version = "0.1.0"
edition = "2021"
publish = false

[dependencies]
tree-sitter = "*"
tree-sitter-bicep = "*"
serde = { version = "1", features = ["derive"] }
serde_json = "1"
serde_yaml = "0.9"
serde_with = "3"
indexmap = { version = "2", features = ["serde"] }
clap = { version = "4", features = ["derive"] }
sys-locale = "0.3"
rust-i18n = "3"
tracing = "0.1"
tracing-subscriber = { version = "0.3", features = ["env-filter", "json"] }
