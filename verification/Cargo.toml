[package]
name = "terraps"
version = "0.1.0"
edition = "2021"
publish = false

[dependencies]
anyhow = "*"
axum = "*"
serde = "*"
serde_json = "*"
tokio = { version = "*", features = ["rt-multi-thread", "macros", "net"] }
tower-http = { version = "*", features = ["trace"] }
tracing = "*"
tracing-subscriber = "*"
reqwest = { version = "*", default-features = false, features = ["rustls-tls", "json"] }

[dev-dependencies]
base64 = "*"
