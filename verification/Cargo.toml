[package]
name = "manydns"
version = "0.1.0"
edition = "2021"
publish = false

[dependencies]
reqwest = { version = "=0.13.5", features = ["json", "form", "query"] }
serde = { version = "=1.0.229", features = ["derive"] }
serde_json = "=1.0.151"
thiserror = "=2.0.21"
quick-xml = "=0.42.0"
chrono = "=0.4.45"
hex = "=0.4.3"
hmac = "=0.13.0"
sha2 = "=0.11.0"
