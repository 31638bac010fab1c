[package]
name = "cowork_rs"
version = "0.1.0"
edition = "2021"
publish = false

[dependencies]
anyhow = "=1.0.104"
async-openai = { version = "=0.43.0", features = ["chat-completion"] }
async-trait = "=0.1.92"
dotenvy = "=0.15.7"
futures-util = "=0.3.34"
rmcp = { version = "=3.8.0", features = ["client", "transport-child-process", "transport-streamable-http-client-reqwest", "reqwest"] }
rusqlite = { version = "=0.41.1", features = ["bundled"] }
serde = { version = "=1.0.229", features = ["derive"] }
serde_json = "=1.0.154"
tokio = { version = "=1.54.1", features = ["rt-multi-thread", "macros", "process", "sync"] }
