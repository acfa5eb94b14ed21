[package]
name = "youdusa"
version = "0.1.0"
edition = "2021"
publish = false

[dependencies]
anyhow = "1"
askama = "0.12"
clap = { version = "4", features = ["derive", "cargo"] }
primitive-types = "*"
serde = { version = "1", features = ["derive"] }
serde_json = "1"
tee = "0.1"
