[package]
name = "rover_ops"
version = "0.1.0"
edition = "2021"
publish = false

[dependencies]
chrono = "*"
axum = "*"
tokio = { version = "*", features = ["rt-multi-thread", "macros"] }
redis = { version = "*", features = ["tokio-comp"] }
tokio-postgres = "*"
reqwest = { version = "*", default-features = false, features = ["json"] }
serde = { version = "*", features = ["derive"] }
serde_json = "*"
