[package]
name = "weibo_client"
version = "0.1.0"
edition = "2021"
publish = false

[dependencies]
sha2 = "=0.10.9"
serde = { version = "=1.0.229", features = ["derive"] }
serde_json = "=1.0.151"
log = "=0.4.34"
url = "=2.5.8"
bytes = "=1.12.1"
reqwest = { version = "=0.13.5", default-features = false, features = ["cookies", "json", "form", "query"] }
reqwest_cookie_store = "=0.10.0"
