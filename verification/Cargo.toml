[package]
name = "social_graph"
version = "0.1.0"
edition = "2021"
publish = false

[dependencies]
lru = "*"
petgraph = "*"
parking_lot = "*"
anyhow = "*"
tracing = "*"
futures = "*"
tokio = { version = "*", features = ["process", "io-util", "rt"] }
twilight-model = "*"
twilight-http = "*"
twilight-command-parser = "*"
sqlx = { version = "*", default-features = false, features = ["runtime-tokio", "sqlite"] }
