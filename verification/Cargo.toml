[package]
name = "devclean_core"
version = "0.1.0"
edition = "2021"
publish = false

[dependencies]
walkdir = "2"
dirs = "*"
sha2 = "0.10"
hex = "0.4"
serde = { version = "1", features = ["derive"] }
serde_json = "1"
reqwest = { version = "0.12", default-features = false, features = ["blocking", "json", "rustls-tls"] }
