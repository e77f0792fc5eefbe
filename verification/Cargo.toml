[package]
name = "hagitori"
version = "0.1.0"
edition = "2021"
publish = false

[dependencies]
base64 = "=0.22.1"
chrono = "=0.4.45"
url = "=2.5.8"
md-5 = "=0.10.6"
sha2 = "=0.10.9"
hmac = "=0.12.1"
getrandom = "=0.3.4"
serde = { version = "=1.0.229", features = ["derive"] }
serde_json = "=1.0.154"
thiserror = "=2.0.21"
dirs = "=6.0.0"
rusqlite = { version = "=0.41.1", features = ["bundled"] }
scraper = "=0.29.0"
image = { version = "=0.25.10", default-features = false, features = ["png", "jpeg", "webp"] }
chromiumoxide = "=0.9.1"
tokio = { version = "=1.54.1", features = ["rt", "time", "sync", "macros", "fs"] }
tokio-util = "0.7"
futures = "=0.3.34"
tempfile = "=3.27.0"
