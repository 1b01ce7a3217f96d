[package]
name = "fluxgate"
version = "0.1.0"
edition = "2021"
publish = false

[dependencies]
argon2 = "0.5"
async-trait = "0.1"
axum = "0.7"
axum-server = { version = "0.7", features = ["tls-rustls"] }
deadpool-redis = "0.14"
hex = "0.4"
jsonwebtoken = "9"
rand = "0.8"
redis = { version = "0.24", features = ["tokio-comp"] }
reqwest = { version = "0.12", default-features = false, features = ["json", "stream", "rustls-tls"] }
serde = { version = "1", features = ["derive"] }
serde_json = "1"
sha2 = "0.10"
sqlx = { version = "0.7", default-features = false, features = ["runtime-tokio", "postgres", "uuid"] }
tokio = { version = "1", features = ["full"] }
tower-http = { version = "0.5", features = ["cors"] }
tracing = "0.1"
tracing-subscriber = "0.3"
trust-dns-proto = "0.23"
uuid = { version = "1", features = ["serde", "v4"] }
