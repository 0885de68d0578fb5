[package]
name = "llmrc"
version = "0.1.0"
edition = "2021"
publish = false

[dependencies]
serde_json = "=1.0.154"
serde = { version = "=1.0.229", features = ["derive"] }
thiserror = "=2.0.21"
async-trait = "=0.1.92"
futures = "=0.3.34"
tokio = { version = "=1.54.1", features = ["full"] }
tokio-util = "=0.7.20"
reqwest = { version = "=0.13.5", features = ["json"] }
async-openai = { version = "=0.43.0", features = ["chat-completion", "embedding"] }
ollama-rs = { version = "=0.3.6", features = ["stream"] }
schemars = "=1.2.3"
rmcp = { version = "=3.8.0", features = ["client", "transport-child-process", "transport-streamable-http-client-reqwest"] }
