[package]
name = "hds_core"
version = "0.1.0"
edition = "2021"
publish = false

[dependencies]
chrono = "*"
reqwest = { version = "*", default-features = false, features = ["blocking"] }
tokio = { version = "*", default-features = false, features = ["rt-multi-thread"] }

[dev-dependencies]
serde_json = "*"
