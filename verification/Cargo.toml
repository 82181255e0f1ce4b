[package]
name = "zenlings"
version = "0.1.0"
edition = "2021"
publish = false

[dependencies]
anyhow = "*"
clap = { version = "*", features = ["derive"] }
crossterm = "*"
notify = "*"
serde = { version = "*", features = ["derive"] }
serde_json = "*"
toml = "*"
