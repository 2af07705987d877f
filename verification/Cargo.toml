[package]
name = "knotes_core"
version = "0.1.0"
edition = "2021"
publish = false

[dependencies]
uuid = { version = "=1.27.0", features = ["v4", "serde"] }
chrono = { version = "=0.4.45", features = ["serde"] }
password-auth = "=1.0.0"
serde = { version = "=1.0.229", features = ["derive"] }
thiserror = "=2.0.21"
anyhow = "=1.0.104"
async-trait = "=0.1.92"
dotenvy = "=0.15.7"
time = "=0.3.55"
tracing = "=0.1.44"
tokio = { version = "=1.53.2", features = ["macros", "rt-multi-thread", "net"] }
axum = "=0.8.9"
axum-login = "=0.18.0"
tower-sessions = "=0.14.0"
tower-sessions-sqlx-store = { version = "=0.15.0", features = ["sqlite"] }
sqlx = { version = "=0.8.6", default-features = false, features = ["runtime-tokio", "sqlite"] }
