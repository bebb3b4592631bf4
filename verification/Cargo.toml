[package]
name = "ark_holdings_api"
version = "0.1.0"
edition = "2021"
publish = false

[dependencies]
axum = "*"
chrono = "*"
polars = { version = "*", default-features = false, features = ["parquet", "dtype-date", "temporal"] }
serde = { version = "*", features = ["derive"] }
serde_json = "*"
tokio = { version = "*", features = ["rt-multi-thread", "macros", "net"] }
