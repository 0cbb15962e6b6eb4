[package]
name = "series_bench"
version = "0.1.0"
edition = "2021"
publish = false

[dependencies]
rand = "*"
sha2 = "*"
serde_json = "*"
mongodb = { version = "*", features = ["sync"] }
influent = "*"
tokio-core = "*"
