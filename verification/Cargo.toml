[package]
name = "opentale"
version = "0.1.0"
edition = "2021"
publish = false

[dependencies]
rand = "*"
fastnoise-lite = "*"
ron = "*"
serde = { version = "*", features = ["derive"] }
