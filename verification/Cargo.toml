[package]
name = "mrandomer"
version = "0.1.0"
edition = "2021"
publish = false

[dependencies]
rand = "=0.7.3"
toml = "=0.5.11"
serde = { version = "=1.0.229", features = ["derive"] }
serde_derive = "=1.0.229"
clap = "=2.34.0"
midir = "0.6"
