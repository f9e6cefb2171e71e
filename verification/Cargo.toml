[package]
name = "toki_note"
version = "0.1.0"
edition = "2021"
publish = false

[dependencies]
chrono = "0.4"
chrono-tz = "*"
humantime = "2"
anyhow = "1"
clap = { version = "4", features = ["derive"] }
directories = "*"
ical = "*"
rusqlite = { version = "*", features = ["bundled"] }
serde = { version = "1", features = ["derive"] }
toml = "*"
