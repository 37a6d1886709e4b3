[package]
name = "hex-assistant-app"
version = "0.1.0"
edition = "2021"
publish = false

[dependencies]
serde = { version = "1", features = ["derive"] }
serde_json = "1"
sha2 = "0.10"
scraper = "*"
chrono = { version = "0.4", features = ["serde"] }
reqwest = { version = "0.12", default-features = false, features = ["blocking", "rustls-tls"] }
base64 = "0.22"
walkdir = "2"
zip = { version = "*", default-features = false, features = ["deflate"] }
image = { version = "0.25", default-features = false, features = ["png"] }
