[package]
name = "rss_aggregator"
version = "0.1.0"
edition = "2021"
publish = false

[dependencies]
chrono = "0.4"
feed-rs = "*"
quick-xml = "*"
regex = "1"
reqwest = "*"
rss = "2"
serde = { version = "1", features = ["derive"] }
tokio = { version = "1", features = ["full"] }
toml = "*"
