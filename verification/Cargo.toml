[package]
name = "digital_pantry"
version = "0.1.0"
edition = "2021"
publish = false

[dependencies]
reqwest = { version = "=0.12.28", default-features = false, features = ["blocking", "json", "rustls-tls"] }
serde_json = "=1.0.154"
spacetimedb-sdk = "=2.8.3"
spacetimedb = "=2.8.3"
