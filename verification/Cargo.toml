[package]
name = "vk_auth"
version = "0.1.0"
edition = "2021"
publish = false

[dependencies]
anyhow = "1"
form_urlencoded = "1"
reqwest = { version = "0.12", default-features = false, features = ["cookies"] }
scraper = "*"
url = "2"
