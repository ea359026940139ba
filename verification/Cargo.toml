[package]
name = "model_gateway"
version = "0.1.0"
edition = "2021"
publish = false

[dependencies]
async-trait = "0.1"
http = "1"
once_cell = "1"
reqwest = { version = "0.12", default-features = false, features = ["json", "rustls-tls"] }
serde = { version = "1", features = ["derive"] }
serde_json = "1"
tokio = { version = "1", features = ["sync"] }
tracing = "0.1"
