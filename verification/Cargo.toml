[package]
name = "session_auth"
version = "0.1.0"
edition = "2021"
publish = false

[dependencies]
cookie = "=0.18.2"
rust-crypto = "=0.2.36"
rand = "=0.8.8"
chrono = { version = "=0.4.45", features = ["serde"] }
actix-web = { version = "=4.18.1", default-features = false, features = ["macros"] }
redis-async = "=0.18.0"
diesel = { version = "=2.3.14", features = ["mysql", "r2d2", "chrono"] }
dotenv = "=0.15.0"
env_logger = "=0.11.11"
log4rs = "=1.4.0"
serde = { version = "=1.0.229", features = ["derive"] }
serde_json = "=1.0.154"
futures = "=0.3.34"
