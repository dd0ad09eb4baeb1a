[package]
name = "meteorite_core"
version = "0.1.0"
edition = "2021"
publish = false

[dependencies]
age = "*"
anyhow = "1"
keyring-core = "*"
rand = "*"
serde = { version = "1", features = ["derive"] }
tokio = { version = "1", features = ["fs", "rt", "rt-multi-thread", "sync"] }
toml = "*"
webbrowser = "*"
