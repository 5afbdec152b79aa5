[package]
name = "md_docs"
version = "0.1.0"
edition = "2021"
publish = false

[dependencies]
pulldown-cmark = { version = "0.13", default-features = false }
serde_yml = "0.0.12"
colored = "2"
serde = { version = "1", features = ["derive"] }
toml = "0.8"
clap = { version = "4", features = ["derive"] }
dialoguer = "0.11"
dirs = "6"
anyhow = "1"
thiserror = "2"
semver = "1"
serde_json = "1"
ureq = "3"
tempfile = "3"
