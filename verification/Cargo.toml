[package]
name = "sheepnet"
version = "0.1.0"
edition = "2021"
publish = false

[dependencies]
anyhow = "=1.0.104"
chrono = "=0.4.45"
clap = { version = "=4.6.7", features = ["derive"] }
reqwest = { version = "=0.11.27", default-features = false, features = ["rustls-tls"] }
scraper = "=0.29.0"
serenity = { version = "=0.12.5", default-features = false, features = ["client", "gateway", "model", "rustls_backend"] }
tokio = { version = "=1.54.1", features = ["macros", "rt-multi-thread", "time"] }

[dev-dependencies]
regex = "=1.13.1"
