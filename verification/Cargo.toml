[package]
name = "fdm"
version = "0.1.0"
edition = "2021"
publish = false

[dependencies]
anyhow = "1"
clap = { version = "4", features = ["derive"] }
colored = "2"
decompress = "0.6"
futures-util = "0.3"
git2 = "0.18"
git2_credentials = "0.13"
indicatif = "0.17"
lazy_static = "1"
reqwest = { version = "0.11", features = ["stream"] }
serde = { version = "1", features = ["derive"] }
tokio = { version = "1", features = ["rt-multi-thread", "macros"] }
toml = "0.8"
url = "2"
walkdir = "2"
whoami = "1"
yaml-rust = "0.4"
