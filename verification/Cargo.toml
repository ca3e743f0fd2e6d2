[package]
name = "betl"
version = "0.1.0"
edition = "2021"
publish = false

[dependencies]
calamine = { version = "*", features = ["dates"] }
chrono = "0.4"
clap = { version = "4", features = ["derive"] }
csv = "1"
dirs = "*"
regex = "1"
serde = { version = "1", features = ["derive"] }
serde_json = "1"
