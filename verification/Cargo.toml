[package]
name = "nautilus"
version = "0.1.0"
edition = "2021"
publish = false

[dependencies]
url = "=2.5.8"
dashmap = "=6.2.1"
scraper = "=0.20.0"
rand = "=0.8.8"
anyhow = "=1.0.104"
dotenvy = "=0.15.7"
envy = "=0.4.2"
grammers-client = { version = "=0.11.0", features = ["html"] }
grammers-mtsender = "=0.11.0"
grammers-session = "=0.11.0"
num_cpus = "=1.17.0"
pin-project = "=1.1.13"
reqwest = { version = "=0.12.28", default-features = false, features = ["json", "stream"] }
serde = { version = "=1.0.229", features = ["derive"] }
serde_json = "=1.0.154"
tokio = { version = "=1.54.1", features = ["full"] }
tokio-stream = "=0.1.19"
tokio-util = { version = "=0.7.20", features = ["io"] }
tracing = "=0.1.44"
tracing-subscriber = { version = "=0.3.23", features = ["env-filter"] }
