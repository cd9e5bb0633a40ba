[package]
name = "instrux"
version = "0.1.0"
edition = "2021"
publish = false

[dependencies]
similar = "*"
serde = { version = "*", features = ["derive"] }
serde_yaml = "*"
clap = { version = "*", features = ["derive"] }
notify = "*"
