[package]
name = "epub_to_rn"
version = "0.1.0"
edition = "2021"
publish = false

[dependencies]
base64 = "0.22"
cssparser = "*"
epub = "*"
scraper = "*"
serde = { version = "1", features = ["derive"] }
serde_json = "1"
