[package]
name = "authgate"
version = "0.1.0"
edition = "2021"
publish = false

[dependencies]
anyhow = "=1.0.104"
axum = "=0.8.9"
axum-extra = { version = "=0.12.6", features = ["cookie"] }
hmac = "=0.13.0"
reqwest = { version = "=0.13.5", default-features = false, features = ["form", "json"] }
serde = { version = "=1.0.229", features = ["derive"] }
serde_json = "=1.0.151"
serde_yaml = "=0.9.34"
sha2 = "=0.11.0"
time = "=0.3.55"
tokio = { version = "=1.53.2", features = ["macros", "rt-multi-thread", "net"] }
urlencoding = "=2.1.3"
uuid = { version = "=1.27.0", features = ["v4"] }
