[package]
name = "cargo_teensy"
version = "0.1.0"
edition = "2021"
publish = false

[dependencies]
toml = "*"
yaml-rust = "*"
curl = "*"
docopt = "*"
serde = { version = "*", features = ["derive"] }
