[package]
name = "labexs"
version = "0.1.0"
edition = "2021"
publish = false

[dependencies]
scraper = "*"
reqwest = "*"
http = "*"
tokio = { version = "1", features = ["full"] }
futures = "0.3"
