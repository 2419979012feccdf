[package]
name = "bridge_ls"
version = "0.1.0"
edition = "2021"
publish = false

[dependencies]
dashmap = "*"
serde = { version = "*", features = ["derive"] }
serde_json = "*"
tempfile = "*"
tokio = { version = "*", features = ["io-std", "macros", "rt-multi-thread"] }
tower-lsp = "*"
