[package]
name = "meter_engine"
version = "0.1.0"
edition = "2021"
publish = false

[dependencies]
chrono = "*"
serde = { version = "*", features = ["derive"] }
serde_json = "*"
uuid = { version = "*", features = ["v4"] }
tokio = { version = "*", features = ["rt", "rt-multi-thread", "macros"] }
reqwest = { version = "*", default-features = false, features = ["json"] }
