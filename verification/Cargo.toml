[package]
name = "dockerase"
version = "0.1.0"
edition = "2021"
publish = false

[dependencies]
bytesize = "1.3"
clap = { version = "4", features = ["derive"] }
colored = "2"
comfy-table = "7"
dialoguer = "0.11"
dirs = "5"
serde = { version = "1", features = ["derive"] }
serde_json = "1"
