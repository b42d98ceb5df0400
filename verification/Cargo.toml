[package]
name = "timetable"
version = "0.1.0"
edition = "2021"
publish = false

[dependencies]
scraper = "=0.27.0"
ics = "=0.5.8"
serde = { version = "=1.0.229", features = ["derive"] }
