[package]
name = "gilgamesh"
version = "0.1.0"
edition = "2021"
publish = false

[dependencies]
rand = "0.8"
serde = { version = "1", features = ["derive"] }
serde_json = "1"
glob = "0.3"
clap = { version = "4", features = ["derive"] }
anyhow = "1"
