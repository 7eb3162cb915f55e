[package]
name = "urlq"
version = "0.1.0"
edition = "2021"
publish = false

[dependencies]
url = "*"
clap = { version = "*", features = ["derive"] }
atty = "*"
anyhow = "*"
