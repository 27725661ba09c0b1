[package]
name = "hero_call"
version = "0.1.0"
edition = "2021"
publish = false

[dependencies]
rust_decimal = "=1.43.0"
serde = { version = "=1.0.229", features = ["derive"] }
serde_json = "=1.0.154"
chrono = "=0.4.45"
keyring = { version = "=3.6.3", features = ["apple-native", "windows-native"] }
rusqlite = { version = "=0.41.1", features = ["bundled"] }
