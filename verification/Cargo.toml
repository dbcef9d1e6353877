[package]
name = "rust_git"
version = "0.1.0"
edition = "2021"
publish = false

[dependencies]
clap = { version = "4", features = ["derive", "env"] }
flate2 = "1"
hex = "0.4"
serde = { version = "1", features = ["derive"] }
sha1 = "0.10"
toml = "0.8"
