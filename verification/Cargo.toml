[package]
name = "microblog"
version = "0.1.0"
edition = "2021"
publish = false

[dependencies]
argon2 = { version = "0.5", features = ["std"] }
anyhow = "1"
chrono = { version = "0.4", features = ["serde"] }
serde = { version = "1", features = ["derive"] }
actix-web = "4"
actix-identity = "0.4"
actix-cors = "0.6"
sqlx = { version = "0.6", features = ["runtime-actix-rustls", "postgres", "chrono"] }
dotenv = "0.15"
