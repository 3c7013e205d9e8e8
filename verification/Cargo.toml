[package]
name = "scout"
version = "0.1.0"
edition = "2021"
publish = false

[dependencies]
regex = "1"
rustpython-parser = "0.1"
serde = { version = "1", features = ["derive"] }
serde_json = "1"
ron = "0.8"
clap = { version = "4", features = ["derive"] }
walkdir = "2"
