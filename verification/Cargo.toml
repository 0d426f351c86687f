[package]
name = "adopt"
version = "0.5.0"
edition = "2021"
publish = false

[dependencies]
anyhow = "1"
clap = { version = "4", features = ["derive"] }
regex = "1"
serde = { version = "1", features = ["derive"] }
serde_json = "1"
sigpipe = "0.1"
toml = "0.8"
walkdir = "2"
xattr = "1"
