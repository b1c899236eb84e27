[package]
name = "ugo-ii-bot"
version = "0.1.0"
edition = "2021"
publish = false

[dependencies]
chrono = "0.4"
thousands = "0.2"
serenity = "0.11"
sqlx = { version = "0.6", default-features = false, features = ["runtime-tokio-rustls", "sqlite"] }
tokio = { version = "1", features = ["macros", "rt-multi-thread", "time"] }
dotenv = "0.15"
log = "0.4"
simplelog = "0.12"
