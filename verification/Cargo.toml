[package]
name = "investec_buckets"
version = "0.1.0"
edition = "2021"
publish = false

[dependencies]
anyhow = "*"
chrono = "=0.4.45"
gemini-rust = "=2.1.0"
ollama-rs = "=0.3.6"
reqwest = { version = "=0.13.5", features = ["form", "json"] }
serde = { version = "*", features = ["derive"] }
serde_json = "*"
sqlx = { version = "=0.9.0", default-features = false, features = ["postgres", "runtime-tokio", "migrate"] }
thiserror = "*"
tokio = { version = "*", features = ["macros", "rt-multi-thread", "signal", "sync"] }
tokio-cron-scheduler = "=0.15.1"
tracing = "*"
tracing-subscriber = { version = "*", features = ["env-filter"] }
url = "*"
urlencoding = "=2.1.3"
