[package]
name = "llm_memory_graph"
version = "0.1.0"
edition = "2021"
publish = false

[dependencies]
serde = { version = "=1.0.229", features = ["derive"] }
serde_json = "=1.0.154"
uuid = { version = "=1.29.0", features = ["v4", "serde"] }
chrono = { version = "=0.4.45", features = ["serde"] }
petgraph = "=0.6.5"
rmp-serde = "=1.3.1"
bincode = "=1.3.3"
