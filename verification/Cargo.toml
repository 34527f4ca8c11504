[package]
name = "voicebridge"
version = "0.1.0"
edition = "2021"
publish = false

[dependencies]
aws-config = "*"
aws-sdk-polly = "*"
axum = { version = "*", features = ["ws"] }
axum-server = "*"
base64 = "*"
chrono = "*"
futures = "*"
http = "*"
reqwest = { version = "*", features = ["json", "multipart"] }
serde = { version = "*", features = ["derive"] }
serde_json = "*"
tokio = { version = "*", features = ["full"] }
tokio-tungstenite = "*"
tower-http = { version = "*", features = ["cors"] }
tungstenite = "*"
