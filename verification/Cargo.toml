[package]
name = "tauri-llm"
version = "0.1.0"
edition = "2021"
publish = false

[dependencies]
base64 = "0.22"
chrono = "0.4"
genai = "0.6"
hound = "3.5"
image = { version = "0.25", default-features = false, features = ["png"] }
reqwest = { version = "0.12", default-features = false, features = ["rustls-tls", "json"] }
rubato = "0.16"
serde = { version = "1", features = ["derive"] }
serde_json = "1"
sherpa-onnx = "1.13"
tokio = { version = "1", features = ["fs", "io-util", "process", "sync", "rt", "time"] }
