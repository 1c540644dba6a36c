[package]
name = "ushcn"
version = "0.1.0"
edition = "2021"
publish = false

[dependencies]
anyhow = "1"
arrow-array = "=52.2.0"
arrow-schema = "=52.2.0"
chrono = "=0.4.45"
clap = { version = "4", features = ["derive"] }
dirs = "5"
flate2 = "1"
futures = "0.3"
indicatif = "0.17"
parquet = "=52.2.0"
reqwest = { version = "0.12", default-features = false }
tar = "0.4"
tempfile = "3"
tokio = { version = "1", features = ["macros", "rt-multi-thread"] }
