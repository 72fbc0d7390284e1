[package]
name = "asset_ledger"
version = "0.1.0"
edition = "2021"
publish = false

[dependencies]
async-trait = "*"
axum = "0.6"
chrono = { version = "0.4", features = ["serde"] }
dotenv = "0.15"
env_logger = "*"
futures-util = "*"
lapin = "2"
log = "*"
serde = { version = "1", features = ["derive"] }
serde_json = "1"
sqlx = { version = "0.6", default-features = false, features = ["runtime-tokio-rustls", "postgres", "chrono"] }
tokio = { version = "1", features = ["full"] }
