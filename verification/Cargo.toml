[package]
name = "library_backend"
version = "0.1.0"
edition = "2021"
publish = false

[dependencies]
aes = "0.8"
argon2 = { version = "0.5", features = ["std"] }
uuid = { version = "1", features = ["v4"] }
jsonwebtoken = "9"
anyhow = "1"
thiserror = "1"
secrecy = { version = "0.8", features = ["serde"] }
serde = { version = "1", features = ["derive"] }
serde-aux = "4"
serde_with = "3"
strum = "0.26"
strum_macros = "0.26"
axum = "0.7"
axum-extra = { version = "0.9", features = ["cookie"] }
sqlx = { version = "0.7", default-features = false, features = ["postgres", "runtime-tokio", "uuid", "macros"] }
tokio = { version = "1", features = ["rt-multi-thread", "macros", "net"] }
tracing = "0.1"
tracing-subscriber = { version = "0.3", features = ["env-filter"] }
config = { version = "0.14", default-features = false, features = ["yaml"] }
