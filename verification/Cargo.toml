[package]
name = "gedent"
version = "0.1.0"
edition = "2021"
publish = false

[dependencies]
anyhow = "=1.0.104"
clap = { version = "=4.6.7", features = ["derive"] }
clap_complete = "=4.6.11"
dialoguer = "=0.12.0"
dirs = "=7.0.0"
edit = "=0.1.5"
serde = { version = "=1.0.229", features = ["derive"] }
serde_json = "=1.0.151"
tera = "=1.20.1"
toml = "=0.8.23"
