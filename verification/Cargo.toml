[package]
name = "prowl"
version = "0.1.0"
edition = "2021"
publish = false

[dependencies]
anstyle = "*"
anyhow = "*"
chrono = "*"
clap = { version = "*", features = ["derive"] }
serde = { version = "*", features = ["derive"] }
serde_json = "*"
uncurses = "*"
