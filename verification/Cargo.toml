[package]
name = "rellr"
version = "0.1.0"
edition = "2021"
publish = false

[dependencies]
clap = { version = "4", features = ["derive"] }
colored = "2"
git2 = { version = "*", default-features = false }
git-cliff-core = "1"
path-absolutize = "3"
regex = "1"
serde = { version = "1", features = ["derive"] }
serde_json = "1"
toml = "*"
