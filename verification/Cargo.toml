[package]
name = "redis_gateway"
version = "0.1.0"
edition = "2021"
publish = false

[dependencies]
actix-web = "*"
deadpool-redis = { version = "*", features = ["serde"] }
dotenv = "*"
serde = { version = "*", features = ["derive"] }
config = "*"
