[package]
name = "m3l"
version = "0.4.0"
edition = "2021"
publish = false

[dependencies]
regex = "1"
serde = { version = "1", features = ["derive"] }
serde_json = "1"
serde_yaml = "0.9"
glob = "0.3"
clap = { version = "4", features = ["derive"] }
