[package]
name = "twitch_translator"
version = "0.1.0"
edition = "2021"
publish = false

[dependencies]
any_ascii = "0.3"
anyhow = "1"
axum = { version = "0.7", features = ["ws"] }
colored = "2"
dotenvy = "0.15"
futures-util = "0.3"
reqwest = { version = "0.12", default-features = false, features = ["json", "rustls-tls"] }
rusqlite = { version = "0.31", features = ["bundled"] }
serde = { version = "1", features = ["derive"] }
serde_json = "1"
terminal_size = "0.3"
tokio = { version = "1", features = ["full"] }
tokio-tungstenite = { version = "0.24", features = ["rustls-tls-webpki-roots"] }
tower-http = { version = "0.5", features = ["cors"] }
tracing = "0.1"
tracing-subscriber = { version = "0.3", features = ["env-filter"] }
urlencoding = "2"
whatlang = "0.16"
