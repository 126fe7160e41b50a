[package]
name = "scoreboard_merge"
version = "0.1.0"
edition = "2021"
publish = false

[dependencies]
flate2 = "1"
fastnbt = "*"
serde = { version = "1", features = ["derive"] }
