[package]
name = "stock_stats"
version = "0.1.0"
edition = "2021"
publish = false

[dependencies]
chrono = "=0.4.45"
yahoo_finance_api = "=1.6.1"
time = "=0.3.55"
clap = { version = "=4.6.7", features = ["derive"] }
async-std = { version = "=1.13.2", features = ["attributes", "unstable", "tokio1"] }
xactor = "=0.7.11"
async-trait = "=0.1.92"
