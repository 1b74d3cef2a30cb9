[package]
name = "listening"
version = "0.1.0"
edition = "2021"
publish = false

[dependencies]
chrono = { version = "=0.4.45", default-features = false, features = ["clock", "std"] }
serde = { version = "=1.0.229", features = ["derive"] }
serde_json = "=1.0.154"
tokio = { version = "=1.54.1", features = ["fs", "rt-multi-thread", "macros", "io-util", "sync"] }
sqlx = { version = "=0.8.6", default-features = false, features = ["runtime-tokio", "sqlite"] }
reqwest = { version = "=0.12.28", default-features = false, features = ["rustls-tls"] }
anyhow = "=1.0.104"
log = "=0.4.35"
directories = "=5.0.1"
