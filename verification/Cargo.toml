[package]
name = "kagi_session_mcp"
version = "0.1.0"
edition = "2021"
publish = false

[dependencies]
aes-gcm = "0.10"
anyhow = "1"
async-trait = "0.1"
base64 = "0.22"
dirs = "*"
ego-tree = "*"
pbkdf2 = "0.12"
regex = "1"
reqwest = { version = "0.12", default-features = false, features = ["rustls-tls", "gzip", "brotli", "cookies", "json"] }
rmcp = { version = "*", features = ["server", "macros", "transport-io"] }
rusqlite = { version = "*", features = ["bundled"] }
schemars = "*"
scraper = "*"
security-framework = "*"
serde = { version = "1", features = ["derive"] }
serde_json = "1"
sha1 = "0.10"
thiserror = "*"
tokio = { version = "1", features = ["macros", "rt-multi-thread", "sync", "time", "io-std"] }
tracing = "0.1"
tracing-subscriber = { version = "0.3", features = ["env-filter", "fmt"] }
url = "2"
