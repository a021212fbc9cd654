[package]
name = "shopfloor"
version = "0.1.0"
edition = "2021"
publish = false

[dependencies]
async-trait = "0.1"
axum = { version = "0.8", default-features = false, features = ["json", "query", "tokio", "http1"] }
chrono = { version = "0.4", default-features = false, features = ["clock", "std", "serde"] }
deadpool-redis = "0.20"
redis = { version = "0.29", default-features = false, features = ["tokio-comp"] }
rust_decimal = { version = "1", default-features = false, features = ["std", "serde"] }
serde = { version = "1", features = ["derive"] }
serde_json = "1"
sqlx = { version = "0.8", default-features = false, features = ["runtime-tokio", "postgres", "chrono", "rust_decimal"] }
tokio = { version = "1", features = ["rt", "sync", "macros"] }
tracing = { version = "0.1", default-features = false, features = ["std"] }
uuid = { version = "1", features = ["v4"] }
