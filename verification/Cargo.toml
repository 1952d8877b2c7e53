[package]
name = "personal-ai-workbench"
version = "0.1.0"
edition = "2021"
publish = false

[dependencies]
serde = { version = "1", features = ["derive"] }
serde_json = "1"
sha2 = "0.10"
rusqlite = { version = "*", features = ["bundled"] }
mysql = { version = "*", default-features = false }
keyring = "3"
tiny_http = "0.12"
zip = { version = "2", default-features = false, features = ["deflate"] }
