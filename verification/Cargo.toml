[package]
name = "mtt"
version = "0.1.0"
edition = "2021"
publish = false

[dependencies]
chrono = "*"
clap = { version = "*", features = ["derive"] }
directories = "*"
humantime = "*"
serde = { version = "*", features = ["derive"] }
serde_json = "*"
