[package]
name = "league_ratings"
version = "0.1.0"
edition = "2021"
publish = false

[dependencies]
skillratings = "*"
chrono = "*"
csv = "*"
clap = { version = "*", features = ["derive"] }
rusqlite = { version = "*", features = ["bundled"] }
