[package]
name = "mortgagetrack"
version = "0.1.0"
edition = "2021"
publish = false

[dependencies]
argon2 = "=0.5.3"
askama = "=0.16.1"
async-trait = "=0.1.92"
axum = "=0.8.9"
chrono = "=0.4.45"
dotenvy = "=0.15.7"
libsql = { version = "=0.10.0", default-features = false, features = ["core", "remote", "tls"] }
reqwest = { version = "=0.12.28", default-features = false, features = ["json"] }
serde = { version = "=1.0.229", features = ["derive"] }
serde_json = "=1.0.154"
sha2 = "=0.10.9"
time = { version = "=0.3.55", features = ["formatting", "parsing"] }
tokio = { version = "=1.54.1", features = ["full"] }
tower-http = { version = "=0.6.11", features = ["fs"] }
tower-sessions = "=0.14.0"
tower-sessions-redis-store = "=0.16.0"
tracing = "=0.1.44"
tracing-subscriber = { version = "=0.3.23", features = ["env-filter"] }
uuid = { version = "=1.29.0", features = ["v4", "serde"] }
