[package]
name = "wizard_api"
version = "0.1.0"
edition = "2021"
publish = false

[dependencies]
async-std = { version = "1", features = ["attributes"] }
femme = "2"
serde = { version = "1", features = ["derive"] }
tide = "0.16"
