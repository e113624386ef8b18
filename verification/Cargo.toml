[package]
name = "crawl_queue"
version = "0.1.0"
edition = "2021"
publish = false

[dependencies]
url = "2"
regex = "1"
chrono = "0.4"
serde = { version = "1", features = ["derive"] }
