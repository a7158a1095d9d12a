[package]
name = "s4u_storage"
version = "0.1.0"
edition = "2021"
publish = false

[dependencies]
actix-web = "4"
actix-multipart = "0.6"
actix-cors = "0.7"
actix-web-httpauth = "0.8"
chrono = "0.4"
dotenvy = "0.15"
env_logger = "0.11"
fs_extra = "1"
futures = "0.3"
jsonwebtoken = "9"
log = "0.4"
serde = { version = "1", features = ["derive"] }
serde_json = "1"
sqlx = { version = "0.7", features = ["runtime-tokio", "postgres"] }
uuid = { version = "1", features = ["v4"] }
walkdir = "2"
