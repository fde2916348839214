[package]
name = "access_map"
version = "0.1.0"
edition = "2021"
publish = false

[dependencies]
anyhow = "=1.0.104"
async-openai = { version = "=0.41.3", features = ["administration", "assistant", "byot", "file", "finetuning", "model"] }
base64 = "=0.23.1"
chrono = "=0.4.45"
futures = "=0.3.34"
gitlab = "=0.1905.0"
hmac = "=0.13.0"
mongodb = { version = "=3.9.1", default-features = false, features = ["compat-3-0-0", "rustls-tls"] }
mysql_async = { version = "=0.37.1", default-features = false, features = ["minimal"] }
percent-encoding = "=2.3.2"
quick-xml = "=0.42.0"
reqwest = { version = "=0.13.5", default-features = false, features = ["form", "json", "query", "rustls", "stream"] }
schemars = "=1.2.3"
serde = { version = "1", features = ["derive"] }
serde_json = { version = "=1.0.154", features = ["float_roundtrip"] }
sha1 = "=0.11.0"
sha2 = "=0.11.1"
tokio = { version = "=1.54.1", features = ["rt", "time", "macros"] }
tracing = "=0.1.44"
uuid = { version = "1", features = ["v4"] }
