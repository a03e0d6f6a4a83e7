[package]
name = "ox"
version = "0.1.0"
edition = "2021"
publish = false

[dependencies]
serde = { version = "*", features = ["derive"] }
serde_json = "*"
jsonwebtoken = "*"
base64 = "*"
anyhow = "*"
dotenvy = "*"
futures = "*"
reqwest = { version = "*", default-features = false, features = ["json", "stream", "rustls-tls"] }
tokio = { version = "*", features = ["macros", "rt-multi-thread"] }
