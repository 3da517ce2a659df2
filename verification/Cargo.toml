[package]
name = "ccchat"
version = "0.1.0"
edition = "2021"
publish = false

[dependencies]
dashmap = "*"
uuid = { version = "*", features = ["v4"] }
clap = { version = "*", features = ["derive", "env"] }
tokio = { version = "*", features = ["full"] }
futures-util = "*"
reqwest = { version = "*", default-features = false, features = ["json"] }
serde_json = "*"
tokio-tungstenite = "*"
tracing = "*"
tracing-subscriber = { version = "*", features = ["env-filter"] }
