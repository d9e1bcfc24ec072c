[package]
name = "eventcast"
version = "0.1.0"
edition = "2021"
publish = false

[dependencies]
hex = "0.4"
ed25519-dalek = "=1.0.1"
chrono = "0.4"
uuid = { version = "1", features = ["v4"] }
url = "2"
serde = { version = "1", features = ["derive"] }
serde_json = "1"
tokio = { version = "1", features = ["macros", "rt"] }
lambda_http = "*"
lambda_runtime = "*"
aws-config = "*"
aws-sdk-dynamodb = "*"
aws-sdk-iot = "*"
aws_lambda_events = "*"
reqwest = { version = "0.12", default-features = false, features = ["rustls-tls", "json"] }
tracing = "0.1"
tracing-subscriber = "0.3"
