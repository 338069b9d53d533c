[package]
name = "anime_grabber"
version = "0.1.0"
edition = "2021"
publish = false

[dependencies]
futures = "0.3"
reqwest = { version = "0.11", features = ["json"] }
serde = { version = "1", features = ["derive"] }
serde_yaml = "0.9"
structopt = "0.3"
tokio = { version = "1", features = ["full"] }
