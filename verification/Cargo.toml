[package]
name = "forage"
version = "0.1.0"
edition = "2021"
publish = false

[dependencies]
chrono = "0.4"
dirs = "5"
hex = "0.4"
htmd = "0.1"
quick-xml = "0.36"
rand = "0.8"
reqwest = { version = "0.12", default-features = false, features = ["rustls-tls", "cookies", "json"] }
rmcp = { version = "0.1", features = ["server", "transport-io"] }
rusqlite = { version = "0.32", features = ["bundled"] }
schemars = "0.8"
scraper = "0.20"
serde = { version = "1", features = ["derive"] }
serde_json = "1"
sha2 = "0.10"
thiserror = "1"
tokio = { version = "1", features = ["full"] }
toml = "0.8"
tracing = "0.1"
tracing-appender = "0.2"
tracing-subscriber = { version = "0.3", features = ["env-filter"] }
url = "2"
urlencoding = "2"
