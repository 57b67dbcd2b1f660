[package]
name = "eorzea_bot"
version = "0.1.0"
edition = "2021"
publish = false

[dependencies]
chrono = "0.4"
lazy_static = "1"
once_cell = "1"
reqwest = { version = "0.11", default-features = false, features = ["rustls-tls", "cookies"] }
roux = "*"
select = "0.6"
serde = { version = "1", features = ["derive"] }
serde_json = "1"
serenity = "0.10"
tokio = { version = "1", features = ["full"] }
uuid = { version = "1", features = ["v4"] }
