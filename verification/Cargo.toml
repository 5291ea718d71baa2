[package]
name = "kompose"
version = "0.1.0"
edition = "2021"
publish = false

[dependencies]
regex = "1"
serde_json = "1"
itertools = "0.12"
nickel-lang-core = { version = "0.5", default-features = false }
clap = { version = "4", features = ["derive"] }
indoc = "2"
lazy_static = "1"
thiserror = "1"
lsp-server = "0.7"
lsp-types = "0.94"
