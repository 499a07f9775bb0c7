[package]
name = "interlinked"
version = "0.1.0"
edition = "2021"
publish = false

[dependencies]
hmac-sha256 = "=1.1.15"
tinyrand = "=0.5.0"
url = { version = "=2.5.8", features = ["serde"] }
serde = { version = "=1.0.229", features = ["derive"] }
axum = "=0.8.9"
tokio = { version = "=1.54.1", features = ["full"] }
diesel = { version = "=2.3.14", features = ["sqlite", "returning_clauses_for_sqlite_3_35"] }
object_store = "=0.14.2"
uuid = { version = "=1.29.1", features = ["v4"] }
tower-http = { version = "=0.6.11", features = ["cors"] }
tracing = "=0.1.44"
tracing-subscriber = "=0.3.23"
dotenvy = "=0.15.7"
anyhow = "=1.0.104"
reqwest = { version = "=0.12.28", default-features = false, features = ["json"] }
clap = { version = "=4.6.7", features = ["derive"] }
toml = "=1.2.1"
indicatif = "=0.18.6"
thiserror = "=2.0.21"
