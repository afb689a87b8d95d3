[package]
name = "fmp"
version = "0.1.0"
edition = "2021"
publish = false

[dependencies]
time = { version = "=0.3.55", features = ["formatting", "parsing"] }
peroxide = { version = "=0.34.7", features = ["parquet"] }
yahoo_finance_api = { version = "=2.4.0", features = ["blocking"] }
tokio = { version = "=1.54.1", features = ["macros", "rt-multi-thread"] }
reqwest = { version = "=0.11.27", features = ["blocking", "json"] }
serde = { version = "=1.0.229", features = ["derive"] }
