[package]
name = "rag_responder"
version = "0.1.0"
edition = "2021"
publish = false

[dependencies]
discord-flows = "*"
flowsnet-platform-sdk = "*"
log = "0.4"
openai-flows = "*"
serde_json = "1"
store-flows = "*"
tokio = { version = "1", features = ["macros", "rt"] }
vector-store-flows = "*"
