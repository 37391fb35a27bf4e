[package]
name = "payroll_core"
version = "0.1.0"
edition = "2021"
publish = false

[dependencies]
rust_decimal = "=1.43.0"
chrono = { version = "=0.4.45", default-features = false, features = ["std", "clock", "serde"] }
sha2 = "=0.10.9"
base64 = "=0.22.1"
argon2 = "=0.5.3"
rand = "=0.8.8"
axum = "=0.8.9"
tokio = { version = "=1.54.1", features = ["macros", "rt-multi-thread", "net"] }
sqlx = { version = "=0.8.6", default-features = false, features = ["runtime-tokio", "postgres", "chrono", "rust_decimal", "json", "macros", "migrate"] }
serde = { version = "=1.0.229", features = ["derive"] }
serde_json = "=1.0.154"
askama = "=0.12.1"
tower-http = { version = "=0.6.11", features = ["fs"] }
dotenvy = "=0.15.7"
env_logger = "=0.11.11"
log = "=0.4.35"
