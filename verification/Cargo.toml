[package]
name = "templar"
version = "0.1.0"
edition = "2021"
publish = false

[dependencies]
serde_json = { version = "1", features = ["preserve_order"] }
serde_yaml = "0.9"
toml = "0.8"
tera = "1"
clap = { version = "4", features = ["derive"] }
termcolor = "1"
glob = "0.3"
