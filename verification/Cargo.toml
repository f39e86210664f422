[package]
name = "warp10"
version = "0.1.0"
edition = "2021"
publish = false

[dependencies]
chrono = "0.4"
percent-encoding = "2"
url = "2"
http = "1"
reqwest = { version = "0.12", default-features = false, features = ["blocking"] }
serde = "1"
serde_json = "1"
