[package]
name = "allroads"
version = "0.1.0"
edition = "2021"
publish = false

[dependencies]
sha2 = "0.10"
base64 = "0.22"
chrono = "0.4"
rand = "0.8"
hex = "0.4"
serde = { version = "1", features = ["derive"] }
serde_json = "1"
rusqlite = { version = "*", features = ["bundled"] }
keyring = "3"
thiserror = "1"
futures = "0.3"
tokio = { version = "1", features = ["net", "rt", "macros"] }
tokio-tungstenite = "0.24"
tokio-rustls = { version = "0.26", default-features = false, features = ["ring", "tls12"] }
