[package]
name = "simple_preferences"
version = "0.1.0"
edition = "2021"
publish = false

[dependencies]
serde = { version = "1", features = ["derive"] }
toml = "*"
tempfile = "3"
dirs = "*"
thiserror = "*"
