[package]
name = "antigravity_upstream"
version = "4.8.1"
edition = "2021"
publish = false

[dependencies]
chrono = "0.4"
dashmap = "6"
futures = "0.3"
machine-uid = "0.5"
once_cell = "1"
regex = "1"
reqwest = { version = "0.12", default-features = false, features = ["json", "rustls-tls"] }
serde = { version = "1", features = ["derive"] }
serde_json = "1"
sha2 = "0.10"
tokio = { version = "1", features = ["full"] }
tracing = "0.1"
