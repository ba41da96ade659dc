[package]
name = "entity_cache"
version = "0.1.0"
edition = "2021"
publish = false

[dependencies]
anyhow = "1"
fred = "*"
futures = "0.3"
redis = { version = "*", features = ["tokio-comp", "connection-manager"] }
serde = { version = "1", features = ["derive"] }
serde_json = "1"

[dev-dependencies]
chrono = { version = "0.4", features = ["serde"] }
uuid = { version = "1", features = ["serde", "v4"] }
