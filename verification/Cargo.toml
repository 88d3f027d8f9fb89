[package]
name = "ferroload"
version = "0.1.0"
edition = "2021"
publish = false

[dependencies]
actix-multipart = "0.7"
actix-web = "4"
actix-ws = "*"
anyhow = "1"
chrono = "0.4"
futures-util = "0.3"
hex = "0.4"
include_dir = "0.7"
reqwest = { version = "0.12", default-features = false, features = ["json", "rustls-tls"] }
serde = { version = "1", features = ["derive"] }
serde_bencode = "0.2"
serde_bytes = "0.11"
serde_json = "1"
sha1 = "0.10"
sqlx = { version = "0.8", default-features = false, features = ["sqlite", "runtime-tokio"] }
tokio = { version = "1", features = ["full"] }
tracing = "0.1"
tracing-subscriber = { version = "0.3", features = ["env-filter"] }
uuid = { version = "1", features = ["v4"] }
