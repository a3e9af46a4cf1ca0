[package]
name = "tailgunner"
version = "0.1.0"
edition = "2021"
publish = false

[dependencies]
serde = { version = "=1.0.229", features = ["derive"] }
serde_json = "=1.0.154"
tokio = { version = "=1.54.1", features = ["rt-multi-thread", "macros", "time", "sync"] }
reqwest = { version = "=0.12.28", default-features = false, features = ["json"] }
anyhow = "=1.0.104"
log = "=0.4.35"
chrono = { version = "=0.4.45", default-features = false, features = ["clock"] }
rusqlite = { version = "=0.41.1", features = ["bundled"] }
dirs = "=7.0.0"
base64 = "=0.23.1"
scraper = "=0.29.0"
axum = "=0.8.9"
tower-http = { version = "=0.7.1", features = ["cors"] }
winreg = "*"
