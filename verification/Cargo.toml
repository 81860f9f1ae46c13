[package]
name = "skillbridge"
version = "0.1.0"
edition = "2021"
publish = false

[dependencies]
rayon = "1"
uuid = { version = "1", features = ["v4", "serde"] }
serde = { version = "1", features = ["derive"] }
serde_json = "1"
chrono = { version = "0.4", features = ["serde"] }
actix-web = { version = "4", default-features = false, features = ["macros"] }
actix-cors = "*"
env_logger = "*"
log = "0.4"
