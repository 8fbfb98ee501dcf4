[package]
name = "babblewitz"
version = "0.1.0"
edition = "2021"
publish = false

[dependencies]
anyhow = "*"
chrono = "*"
clap = { version = "*", features = ["derive"] }
flate2 = "*"
rawzip = "*"
serde = { version = "*", features = ["derive"] }
shell-words = "*"
toml = "*"
walkdir = "*"
