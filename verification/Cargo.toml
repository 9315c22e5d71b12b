[package]
name = "phpcs-lsp-server"
version = "0.1.0"
edition = "2021"
publish = false

[dependencies]
anyhow = "1"
lz4_flex = "0.11"
serde = { version = "1", features = ["derive"] }
serde_json = "1"
sha2 = "0.10"
tokio = { version = "1", features = ["io-std", "io-util", "macros", "process", "rt-multi-thread", "sync", "time"] }
tower-lsp = "0.20"
url = "2"
urlencoding = "2"
zed_extension_api = "*"
