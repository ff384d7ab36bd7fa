[package]
name = "card_preview"
version = "0.1.0"
edition = "2021"
publish = false

[dependencies]
htmlescape = "=0.3.1"
actix-web = { version = "=1.0.9", default-features = false, features = ["client"] }
chrono = "=0.4.19"
futures = "=0.1.31"
serde = { version = "1", features = ["derive"] }
serde_json = "1"
dotenv = "=0.15.0"
log = "0.4"
pretty_env_logger = "=0.5.0"
