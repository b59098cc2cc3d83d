[package]
name = "obsidian_notifications"
version = "0.1.0"
edition = "2021"
publish = false

[dependencies]
chrono = "=0.4.45"
regex = "=1.13.1"
serde = { version = "=1.0.229", features = ["derive"] }
toml = "=0.8.23"
tokio = { version = "=1.54.1", features = ["full"] }
serenity = "=0.12.5"
poise = "=0.6.2"
shared_singleton = { version = "=0.2.1", features = ["tokio"] }
