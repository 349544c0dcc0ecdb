[package]
name = "auction_site"
version = "0.1.0"
edition = "2021"
publish = false

[dependencies]
actix-web = "*"
base64 = "*"
env_logger = "*"
log = "*"
serde = { version = "*", features = ["derive"] }
serde_json = "*"
time = { version = "*", features = ["serde", "formatting", "parsing"] }
