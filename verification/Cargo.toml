[package]
name = "shield_ghita"
version = "0.1.1"
edition = "2021"
publish = false

[dependencies]
sha2 = "0.10"
md-5 = "0.10"
sha1 = "0.10"
base64 = "0.22"
serde = { version = "1", features = ["derive"] }
serde_json = "1"
toml = "0.8"
chrono = "0.4"
tokio = { version = "1", features = ["full"] }
reqwest = { version = "0.12", default-features = false, features = ["rustls-tls"] }
tracing = "0.1"
