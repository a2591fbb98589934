[package]
name = "ferrox_models"
version = "0.1.0"
edition = "2021"
publish = false

[dependencies]
base64 = "*"
fancy-regex = "*"
serde = { version = "1", features = ["derive"] }
serde_json = "1"
thiserror = "*"
