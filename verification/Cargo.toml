[package]
name = "activity_inbox"
version = "0.1.0"
edition = "2021"
publish = false

[dependencies]
actix-web = "4"
anyhow = "1"
futures = "0.3"
reqwest = { version = "0.11", default-features = false, features = ["stream", "json"] }
reqwest-middleware = "0.2"
serde = { version = "1", features = ["derive"] }
tokio = { version = "1", features = ["sync"] }
