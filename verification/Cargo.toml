[package]
name = "mica_core"
version = "0.1.0"
edition = "2021"
publish = false

[dependencies]
rnix = "*"
indexmap = "*"
serde = { version = "*", features = ["derive"] }
toml = "*"
chrono = "*"
clap = { version = "*", features = ["derive"] }
