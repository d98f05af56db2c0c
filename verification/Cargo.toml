[package]
name = "ollama_chat"
version = "0.1.0"
edition = "2021"
publish = false

[dependencies]
serde = { version = "=1.0.229", features = ["derive"] }
serde_json = "=1.0.154"
reqwest = { version = "=0.12.28", default-features = false, features = ["json", "stream"] }
futures-util = "=0.3.34"
log = "=0.4.35"
tauri = { version = "=2.12.5", default-features = false }
tauri-plugin-log = "=2.10.1"

[dev-dependencies]
serde_json = "=1.0.154"
