[package]
name = "lcars"
version = "0.1.0"
edition = "2021"
publish = false

[dependencies]
regex = "=1.13.1"
sha2 = "=0.10.9"
hex = "=0.4.3"
urlencoding = "=2.1.3"
reqwest = { version = "=0.12.28", default-features = false }
serde = { version = "=1.0.229", features = ["derive"] }
serde_json = "=1.0.154"
scraper = "=0.29.0"
walkdir = "2"
lofty = "0"
tokio = { version = "=1.54.1", features = ["rt-multi-thread", "macros", "sync", "net"] }
axum = "=0.8.9"
rusqlite = "=0.32.1"
argon2 = "=0.5.3"
jsonwebtoken = "=9.3.1"
rand = "=0.8.8"
tracing = "=0.1.44"
tracing-subscriber = { version = "=0.3.23", features = ["env-filter"] }
config = { version = "=0.14.1", default-features = false, features = ["toml"] }
