[package]
name = "cliguard"
version = "0.1.0"
edition = "2021"
publish = false

[dependencies]
regex = "1"
serde = { version = "1", features = ["derive"] }
serde_json = "1"
anyhow = "1"
wait-timeout = "0.2"
which = "*"
clap = { version = "4", features = ["derive"] }
