[package]
name = "indexer_stream"
version = "0.1.0"
edition = "2021"
publish = false

[dependencies]
anyhow = "1"
async-trait = "0.1"
cloud-storage = "0.11"
dashmap = "5.5"
futures = "0.3"
lz4_flex = "0.11"
prost = "0.13"
rand = "0.7.3"
serde = { version = "1", features = ["derive"] }
serde_json = "1"
tokio = { version = "1", features = ["full"] }
tokio-scoped = "0.2"
tokio-stream = "0.1"
tonic = "0.12"
tracing = "0.1"
uuid = { version = "1", features = ["v4"] }
