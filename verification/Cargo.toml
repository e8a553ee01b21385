[package]
name = "recall"
version = "0.1.0"
edition = "2021"
publish = false

[dependencies]
anyhow = "*"
clap = { version = "*", features = ["derive"] }
directories = "*"
ratatui = "*"
toml = { version = "*", features = ["preserve_order"] }
unicode-width = "*"
