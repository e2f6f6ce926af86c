[package]
name = "pecan"
version = "0.1.0"
edition = "2021"
publish = false

[dependencies]
base64 = "*"
rand = "*"
chrono = "*"

[dev-dependencies]
serde_json = "*"
