[package]
name = "news_service"
version = "0.1.0"
edition = "2021"
publish = false

[dependencies]
deunicode = "=1.6.2"
rust_decimal = { version = "=1.43.0", features = ["maths"] }
chrono = "=0.4.45"
url = "=2.5.8"
lingua = { version = "=1.8.0", default-features = false, features = ["english", "french", "german", "spanish", "swedish"] }
serde = { version = "=1.0.229", features = ["derive"] }
serde_json = "=1.0.154"
reqwest = { version = "=0.12.28", default-features = false, features = ["json", "rustls-tls"] }
tokio = { version = "=1.54.1", features = ["rt-multi-thread", "macros", "time"] }
log = "=0.4.35"
