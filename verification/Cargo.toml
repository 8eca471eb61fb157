[package]
name = "zatamap-trade-rust"
version = "0.1.0"
edition = "2021"
publish = false

[dependencies]
axum = "0.6"
base32 = "0.4"
base64 = "0.21"
bytes = "1"
chrono = { version = "0.4", default-features = false, features = ["clock", "std"] }
csv = "1"
dashmap = "5"
dotenvy = "0.15"
futures-util = { version = "0.3", features = ["sink"] }
hex = "0.4"
hmac = "0.12"
reqwest = { version = "0.11", default-features = false, features = ["json", "rustls-tls"] }
rustls = { version = "0.21", features = ["dangerous_configuration"] }
rustls-native-certs = "0.6"
serde = { version = "1", features = ["derive"] }
serde_json = "1"
sha1 = "0.10"
sha2 = "0.10"
thiserror = "1"
tokio = { version = "1", features = ["full"] }
tokio-postgres = "0.7"
tokio-postgres-rustls = "0.10"
tokio-tungstenite = { version = "0.20", features = ["rustls-tls-webpki-roots"] }
tower-http = { version = "0.4", features = ["trace"] }
tracing = "0.1"
tracing-subscriber = { version = "0.3", features = ["env-filter", "json"] }
urlencoding = "2"
webpki-roots = "0.23"
