[package]
name = "karuta"
version = "0.1.0"
edition = "2021"
publish = false

[dependencies]
rand = "0.9"
rocket = { version = "0.5", features = ["json"] }
rocket_okapi = { version = "0.9", features = ["swagger"] }
schemars = "0.8"
serde = { version = "1", features = ["derive"] }
serde_json = "1"
toml = "0.8"
git2 = { version = "0.20", default-features = false }
reqwest = { version = "0.12", default-features = false, features = ["blocking", "json", "rustls-tls"] }
