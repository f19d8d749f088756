[package]
name = "pooprusteek"
version = "0.1.0"
edition = "2021"
publish = false

[dependencies]
chrono = { version = "*", default-features = false, features = ["clock", "std"] }
crossterm = "*"
futures = "*"
regex = "*"
reqwest = { version = "*", default-features = false }
serde_json = "*"
tokio = { version = "*", features = ["rt", "rt-multi-thread", "sync", "time", "macros"] }
tracing = "*"
uuid = { version = "*", features = ["v4"] }
