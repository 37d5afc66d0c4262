[package]
name = "shard_vault"
version = "0.1.0"
edition = "2021"
publish = false

[dependencies]
aes-gcm = "0.10"
pbkdf2 = "0.12"
hmac = "0.12"
sha2 = "0.10"
rand = "0.8"
uuid = { version = "1", features = ["v4"] }
rusqlite = { version = "*", features = ["bundled-sqlcipher-vendored-openssl"] }
axum = "0.7"
tokio = { version = "1", features = ["rt-multi-thread", "net", "macros"] }
tower-http = { version = "*", features = ["cors"] }
serde = { version = "1", features = ["derive"] }
serde_json = "1"
chrono = "0.4"
