[package]
name = "devflow"
version = "0.1.0"
edition = "2021"
publish = false

[dependencies]
anyhow = "*"
camino = "*"
chrono = "*"
clap = { version = "*", features = ["derive"] }
dirs = "*"
semver = "*"
serde = { version = "*", features = ["derive"] }
toml = "*"
toml_edit = "*"
