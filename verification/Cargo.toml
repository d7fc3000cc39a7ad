[package]
name = "version_it"
version = "0.1.0"
edition = "2021"
publish = false

[dependencies]
semver = "1"
chrono = "0.4"
regex = "1"
serde = { version = "1", features = ["derive"] }
serde_json = "1"
serde_yaml = "0.9"
handlebars = "*"
toml = "*"
clap = { version = "4", features = ["derive"] }
