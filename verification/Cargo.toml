[package]
name = "godot_manager"
version = "0.1.0"
edition = "2021"
publish = false

[dependencies]
serde = { version = "=1.0.229", features = ["derive"] }
serde_json = "=1.0.151"
directories = "=6.0.0"
regex = "=1.13.1"
scraper = "=0.27.0"
reqwest = { version = "*", default-features = false, features = ["blocking"] }
zip-extract = "*"
