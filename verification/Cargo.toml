[package]
name = "bffh"
version = "0.1.0"
edition = "2021"
publish = false

[dependencies]
desfire = "*"
hex = "0.4"
rust-argon2 = "*"
serde = { version = "1", features = ["derive"] }
serde_json = "1"
toml = "0.5"
rand = "0.8"
