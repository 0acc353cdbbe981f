[package]
name = "terminator"
version = "0.1.0"
edition = "2021"
publish = false

[dependencies]
base64 = "*"
colored = "*"
curl = "0.4"
dir = "*"
indicatif = "*"
rand = "0.8"
serde = { version = "1", features = ["derive"] }
serde_json = "1"
sha256 = "*"
