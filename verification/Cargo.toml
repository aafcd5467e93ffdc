[package]
name = "scorecache"
version = "0.1.0"
edition = "2021"
publish = false

[dependencies]
ahash = "0.8"
mee6 = "*"
axum = "0.6"
tokio = { version = "1", features = ["macros", "rt-multi-thread", "time"] }
reqwest = { version = "0.11", default-features = false, features = ["json", "rustls-tls"] }
serde = { version = "1", features = ["derive"] }
tera = "1"
parking_lot = "0.12"
thiserror = "1"
