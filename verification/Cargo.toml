[package]
name = "heretek"
version = "0.1.0"
edition = "2021"
publish = false

[dependencies]
serde = { version = "1", features = ["derive"] }
serde_json = "1"
toml = "*"
thiserror = "*"
anyhow = "1"
clap = { version = "4", features = ["derive"] }
tokio = { version = "1", features = ["rt", "macros", "io-std"] }
reqwest = { version = "*", default-features = false, features = ["blocking", "json"] }
rmcp = { version = "*", features = ["server", "transport-io", "macros"] }
schemars = "*"
libc = "0.2"
wait-timeout = "*"
tree-sitter = "*"
tree-sitter-javascript = "*"
tree-sitter-typescript = "*"
