[package]
name = "kinoplan"
version = "0.1.0"
edition = "2021"
publish = false

[dependencies]
scraper = "*"
chrono = "*"
reqwest = { version = "*", default-features = false, features = ["blocking"] }
