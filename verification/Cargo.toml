[package]
name = "margo_fetch"
version = "0.1.0"
edition = "2021"
publish = false

[dependencies]
env_logger = "0.7"
hex = "0.4"
log = "0.4"
reqwest = "0.9"
serde = "1"
serde_derive = "1"
serde_json = "1"
sha2 = "0.8"
toml = "0.5"

[dev-dependencies]
regex = "1"
