//! Verified core of a desktop chat client for a local Ollama server.
pub mod chat;
pub mod events;
pub mod ndjson;
pub mod ollama;
pub mod session;
pub mod text;
