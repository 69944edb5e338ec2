[package]
name = "bench_harness"
version = "0.1.0"
edition = "2021"
publish = false

[dependencies]
chrono = "0.4"
clap = { version = "4", features = ["derive"] }
polars = { version = "0.32", features = ["lazy", "parquet"] }
serde = { version = "1", features = ["derive"] }
serde_json = "1"
sysinfo = "0.29"
