[package]
name = "webharvest"
version = "0.1.0"
edition = "2021"
publish = false

[dependencies]
url = "2"
regex = "1"
scraper = "*"
serde_json = "1"
encoding_rs = "0.8"
nanoid = "0.4"
mime = "0.3"
serde = { version = "1", features = ["derive"] }
reqwest = { version = "0.11", default-features = false, features = ["blocking", "cookies"] }
