[package]
name = "chat_base"
version = "0.1.0"
edition = "2021"
publish = false

[dependencies]
async-openai = { version = "=0.42.1", default-features = false, features = ["chat-completion"] }
axum = { version = "=0.8.9", features = ["ws"] }
tokio = { version = "=1.53.2", features = ["rt-multi-thread", "macros"] }
futures = "=0.3.34"

[dev-dependencies]
bincode = "=1.3.3"
