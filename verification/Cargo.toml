[package]
name = "discord_bot"
version = "0.1.0"
edition = "2021"
publish = false

[dependencies]
chrono = "0.4"
rand = "0.8"
poise = "0.5"
tokio = { version = "1", features = ["macros", "rt-multi-thread", "time"] }
mongodb = "2"
futures = "0.3"
openweathermap = "0.2"
