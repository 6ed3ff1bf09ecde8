[package]
name = "gigachat"
version = "0.1.0"
edition = "2021"
publish = false

[dependencies]
serde_json = "1"
uuid = { version = "1", features = ["v4"] }
reqwest = { version = "0.12", default-features = false, features = ["rustls-tls", "stream"] }
tokio = { version = "1", features = ["sync", "rt", "macros"] }
futures = "0.3"
schemars = "1"
eventsource-stream = "0.2"
