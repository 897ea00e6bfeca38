[package]
name = "stuwe-telegram-rs"
version = "0.1.0"
edition = "2021"
publish = false

[dependencies]
anyhow = "=1.0.104"
chrono = "=0.4.45"
clap = { version = "=4.6.7", features = ["derive", "env"] }
dptree = "=0.3.0"
futures-util = "=0.3.34"
log = "=0.4.35"
pretty_env_logger = "=0.5.0"
rand = "=0.8.8"
reqwest = { version = "=0.12.28", default-features = false, features = ["json", "cookies", "rustls-tls"] }
reqwest-websocket = "=0.3.0"
rusqlite = { version = "=0.31.0", features = ["bundled"] }
# `deterministic` keeps the attributes of an element in the order of the page.
scraper = { version = "=0.20.0", features = ["deterministic"] }
serde = { version = "=1.0.229", features = ["derive"] }
serde_json = "=1.0.154"
# Not used here: teloxide-core needs it, and its later versions ask for a newer compiler.
takecell = "=0.1.1"
teloxide = { version = "=0.13.0", default-features = false, features = ["macros", "ctrlc_handler", "rustls"] }
tokio = { version = "=1.54.1", features = ["full"] }
tokio-cron-scheduler = "=0.10.2"
uuid = { version = "=1.29.0", features = ["v4"] }

[dev-dependencies]
regex-lite = "=0.1.9"
