[package]
name = "file_search"
version = "0.1.0"
edition = "2021"
publish = false

[dependencies]
serde_json = "*"
serde = { version = "*", features = ["derive"] }
notify = "*"
walkdir = "*"
chrono = "*"
