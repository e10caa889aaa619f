[package]
name = "backend"
version = "0.1.0"
edition = "2021"
publish = false

[dependencies]
base64 = "0.22"
pbkdf2 = { version = "0.12", default-features = false }
hmac = "0.12"
sha2 = "0.10"
rand = "0.8"
chrono = { version = "0.4", default-features = false, features = ["clock", "serde"] }
serde = { version = "1", features = ["derive"] }
serde_json = "1"
thiserror = "1"
tracing = "0.1"
axum = "0.7"
utoipa = "4"
sqlx = { version = "0.8", default-features = false, features = ["runtime-tokio", "sqlite", "mysql", "derive"] }
