[package]
name = "komoot_gpx"
version = "0.1.0"
edition = "2021"
publish = false

[dependencies]
serde_json = "1.0"
reqwest = { version = "0.12", default-features = false, features = ["blocking", "rustls-tls"] }
