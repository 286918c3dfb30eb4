[package]
name = "alchemy_llm"
version = "0.1.0"
edition = "2021"
publish = false

[dependencies]
base64 = "0.22"
dirs = "5"
futures = "0.3"
jsonschema = { version = "0.17", default-features = false }
once_cell = "1"
regex = "1"
reqwest = { version = "0.12", features = ["json", "stream"] }
schemars = "0.8"
serde = { version = "1", features = ["derive"] }
serde_json = "1"
thiserror = "1"
tokio = { version = "1", features = ["rt", "sync"] }
