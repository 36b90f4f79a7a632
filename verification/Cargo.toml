[package]
name = "rekonrek"
version = "0.1.0"
edition = "2021"
publish = false

[dependencies]
anyhow = "*"
dotenv = "*"
env_logger = "*"
futures = "*"
log = "*"
r2d2 = "*"
r2d2-oracle = "*"
reqwest = { version = "*", default-features = false, features = ["json", "rustls-tls"] }
serde = { version = "*", features = ["derive"] }
serde_json = "*"
tokio = { version = "*", features = ["macros", "rt-multi-thread", "time", "signal"] }
tokio-cron-scheduler = "*"
