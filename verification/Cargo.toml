[package]
name = "items_service"
version = "0.1.0"
edition = "2021"
publish = false

[dependencies]
actix-web = "4"
mongodb = "3"
serde = { version = "1", features = ["derive"] }
serde_json = "1"
futures = "0.3"
dotenv = "0.15"
env_logger = "0.11"
log = "0.4"
anyhow = "1"
