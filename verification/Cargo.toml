[package]
name = "misskey"
version = "0.1.0"
edition = "2021"
publish = false

[dependencies]
serde = { version = "=1.0.229", features = ["derive"] }
serde_json = "=1.0.154"
url = "=2.5.8"
reqwest = { version = "=0.13.5", default-features = false, features = ["stream", "rustls"] }
common-multipart-rfc7578 = "=0.7.0"
futures-util = "=0.3.34"
mime = "=0.3.17"
log = "=0.4.35"
thiserror = "=2.0.21"
chrono = { version = "=0.4.45", features = ["serde"] }
typed-builder = "=0.23.2"
derive_more = { version = "=2.1.1", features = ["display", "from_str"] }
