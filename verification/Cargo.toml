[package]
name = "kasa_gateway"
version = "0.1.0"
edition = "2021"
publish = false

[dependencies]
serde = { version = "1", features = ["derive"] }
serde_json = "1"
clap = { version = "4", features = ["derive"] }
dotenv = "0.15"
tokio = { version = "1", features = ["rt-multi-thread"] }
mongodb = "3"
