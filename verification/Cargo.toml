[package]
name = "balance_ledger"
version = "0.1.0"
edition = "2021"
publish = false

[dependencies]
actix = "=0.13.5"
actix-web = "=4.18.1"
bincode = "=2.0.1"
dotenv = "=0.15.0"
log = "=0.4.34"
log4rs = "=1.4.0"
rdkafka = "=0.39.0"
serde = { version = "=1.0.229", features = ["derive"] }
serde_json = "=1.0.154"
tokio = { version = "=1.54.1", features = ["full"] }
