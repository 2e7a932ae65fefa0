[package]
name = "chat_relay"
version = "0.1.0"
edition = "2021"
publish = false

[dependencies]
actix = "*"
actix-cors = "*"
actix-web = "*"
actix-web-actors = "*"
bcrypt = "*"
chrono = "*"
env_logger = "*"
log = "*"
r2d2 = "*"
r2d2_sqlite = { version = "*", features = ["bundled"] }
serde = { version = "*", features = ["derive"] }
serde_json = "*"
