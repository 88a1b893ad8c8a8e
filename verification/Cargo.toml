[package]
name = "forge_core"
version = "0.1.0"
edition = "2021"
publish = false

[dependencies]
regex = "*"
globset = "*"
sha3 = "*"
serde = { version = "*", features = ["derive"] }
serde_json = "*"
ansi_term = "*"
rayon = "*"
