[package]
name = "apecast"
version = "0.1.0"
edition = "2021"
publish = false

[dependencies]
anyhow = "=1.0.104"
chrono = "=0.4.45"
clap = { version = "=4.6.7", features = ["derive", "env"] }
crypto-com-exchange = "=1.2.0"
flume = "=0.10.14"
futures = "=0.3.34"
graphql_client = "=0.13.0"
log = "=0.4.35"
meilisearch-sdk = "=0.22.1"
mongodb = "=2.8.2"
reqwest = { version = "=0.11.27", default-features = false, features = ["json", "rustls-tls"] }
scraper = "=0.17.1"
serde = { version = "=1.0.229", features = ["derive"] }
serde-aux = "=4.7.0"
takecell = "=0.1.1"
teloxide = { version = "=0.12.2", default-features = false, features = ["macros", "rustls", "ctrlc_handler"] }
tokio = { version = "=1.54.1", features = ["full"] }
tokio-stream = "=0.1.19"
wixet-bootstrap = "=1.0.1"
