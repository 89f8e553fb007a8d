[package]
name = "json_updates"
version = "0.1.0"
edition = "2021"
publish = false

[dependencies]
actix-web = { version = "4", default-features = false, features = ["macros"] }
bson = { version = "2", features = ["chrono-0_4"] }
chrono = "0.4"
dotenvy = "0.15"
mongodb = "2"
serde = { version = "1", features = ["derive"] }
serde_json = "1"
