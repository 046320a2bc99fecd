[package]
name = "grpc_echo"
version = "0.1.0"
edition = "2021"
publish = false

[dependencies]
serde = { version = "1", features = ["derive"] }
serde_json = "1"
tokio = { version = "1", features = ["full"] }
tokio-stream = "0.1"
futures-util = { version = "0.3", features = ["sink"] }
tonic = "0.12"
tonic-web = "0.12"
prost = "0.13"
tokio-tungstenite = "0.24"
