[package]
name = "otap_transform"
version = "0.1.0"
edition = "2021"
publish = false

[dependencies]
arrow = { version = "*", default-features = false }
async-trait = "*"
serde = { version = "1", features = ["derive"] }
serde_json = "1"
