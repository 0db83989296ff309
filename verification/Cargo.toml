[package]
name = "logparser"
version = "0.1.0"
edition = "2021"
publish = false

[dependencies]
rusqlite = { version = "*", features = ["bundled"] }
serde_json = "*"
serde = { version = "*", features = ["derive"] }
toml = "*"
argh = "*"
