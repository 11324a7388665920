[package]
name = "systemctl"
version = "0.1.0"
edition = "2021"
publish = false

[dependencies]
itertools = "*"
bon = "*"
serde = { version = "*", features = ["derive"] }
strum = "*"
strum_macros = "*"

[dev-dependencies]
serde_json = "*"
