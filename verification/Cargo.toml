[package]
name = "plato-smart-device-client"
version = "0.1.0"
edition = "2021"
publish = false

[dependencies]
anyhow = "1"
chrono = "0.4"
hex = "0.4"
nix = "0.23"
regex = "1"
serde = { version = "1", features = ["derive"] }
serde_json = "1"
sha1 = "0.10"
signal-hook = "0.3"
thiserror = "1"
toml = "0.5"
