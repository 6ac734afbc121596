[package]
name = "query_engine"
version = "0.1.0"
edition = "2021"
publish = false

[dependencies]
anyhow = "1"
thiserror = "2"
arrow = "*"
arrow-schema = "*"
parquet = { version = "*", default-features = false, features = ["arrow"] }
