[package]
name = "moderation_service"
version = "0.1.0"
edition = "2021"
publish = false

[dependencies]
aho-corasick = "1"
moka = { version = "0.12", features = ["sync"] }
regex = "1"
serde = { version = "1", features = ["derive"] }
axum = "0.8"
tokio = { version = "1", features = ["rt-multi-thread", "macros", "net"] }
sqlx = { version = "0.8", default-features = false, features = ["runtime-tokio", "postgres", "derive"] }
